//! Costs: what a ledger's ticks come to, and what `ps` prints.

use crate::machtime;
use crate::machtime::MachTimebase;
use crate::real_world::processes;
use crate::real_world::processes::Ledger;
use crate::text;
use crate::time::Duration;
use crate::world::{PathUnavailable, ResourceSource, Resources};
use vstd::arithmetic::div_mod::lemma_div_is_ordered;
use vstd::prelude::*;

verus! {

/// The CPU time of a process and that of its children are each the time of its user ticks and its system
/// ticks together, as far as 64 bits count them, and of nothing else; its memory and its writes are the
/// ledger's.
pub proof fn law_a_cost_is_user_and_system_time_together(
    resources: Resources,
    ledger: Ledger,
    timebase: MachTimebase,
)
    requires
        timebase.wf(),
        processes::is_measured(resources, ledger, timebase),
    ensures
        resources.source == ResourceSource::Rusage,
        resources.own_cpu is Ok && resources.children_cpu is Ok,
        ledger.user_ticks + ledger.system_ticks <= u64::MAX ==> resources.own_cpu->Ok_0.nanos as int
            == (ledger.user_ticks + ledger.system_ticks) * timebase.above() / timebase.below() as int,
        ledger.child_user_ticks + ledger.child_system_ticks <= u64::MAX
            ==> resources.children_cpu->Ok_0.nanos as int == (ledger.child_user_ticks
            + ledger.child_system_ticks) * timebase.above() / timebase.below() as int,
        ledger.user_ticks + ledger.system_ticks > u64::MAX ==> resources.own_cpu->Ok_0.nanos as int
            == u64::MAX * timebase.above() / timebase.below() as int,
        ledger.child_user_ticks + ledger.child_system_ticks > u64::MAX
            ==> resources.children_cpu->Ok_0.nanos as int == u64::MAX * timebase.above()
            / timebase.below() as int,
        resources.current_memory is Ok && resources.current_memory->Ok_0 == ledger.footprint,
        resources.peak_memory is Ok && resources.peak_memory->Ok_0 == ledger.peak_footprint,
        resources.bytes_written is Ok && resources.bytes_written->Ok_0 == ledger.bytes_written,
{
}

/// It makes no difference to a cost whether ticks were counted for the user or for the system, neither the
/// process's own nor its children's.
pub proof fn law_user_and_system_time_count_alike(
    one: Resources,
    other: Resources,
    ledger: Ledger,
    moved: Ledger,
    timebase: MachTimebase,
)
    requires
        timebase.wf(),
        processes::is_measured(one, ledger, timebase),
        processes::is_measured(other, moved, timebase),
        ledger.user_ticks + ledger.system_ticks == moved.user_ticks + moved.system_ticks,
        ledger.child_user_ticks + ledger.child_system_ticks == moved.child_user_ticks
            + moved.child_system_ticks,
    ensures
        one.own_cpu->Ok_0 == other.own_cpu->Ok_0,
        one.children_cpu->Ok_0 == other.children_cpu->Ok_0,
{
}

/// More ticks never cost less; and where those that came on top are a nanosecond or more, they cost more.
pub proof fn law_more_ticks_cost_more(
    one: Resources,
    other: Resources,
    ledger: Ledger,
    later: Ledger,
    timebase: MachTimebase,
)
    requires
        timebase.wf(),
        processes::is_measured(one, ledger, timebase),
        processes::is_measured(other, later, timebase),
        later.user_ticks + later.system_ticks <= u64::MAX,
        later.child_user_ticks + later.child_system_ticks <= u64::MAX,
        ledger.user_ticks + ledger.system_ticks <= later.user_ticks + later.system_ticks,
        ledger.child_user_ticks + ledger.child_system_ticks <= later.child_user_ticks
            + later.child_system_ticks,
    ensures
        one.own_cpu->Ok_0.nanos <= other.own_cpu->Ok_0.nanos,
        one.children_cpu->Ok_0.nanos <= other.children_cpu->Ok_0.nanos,
        (later.user_ticks + later.system_ticks - ledger.user_ticks - ledger.system_ticks)
            * timebase.above() >= timebase.below() ==> one.own_cpu->Ok_0.nanos
            < other.own_cpu->Ok_0.nanos,
        (later.child_user_ticks + later.child_system_ticks - ledger.child_user_ticks
            - ledger.child_system_ticks) * timebase.above() >= timebase.below()
            ==> one.children_cpu->Ok_0.nanos < other.children_cpu->Ok_0.nanos,
{
    machtime::lemma_is_a_fraction(timebase);
    lemma_more_ticks_last_longer(
        ledger.user_ticks + ledger.system_ticks,
        later.user_ticks + later.system_ticks,
        timebase.above() as int,
        timebase.below() as int,
    );
    lemma_more_ticks_last_longer(
        ledger.child_user_ticks + ledger.child_system_ticks,
        later.child_user_ticks + later.child_system_ticks,
        timebase.above() as int,
        timebase.below() as int,
    );
}

proof fn lemma_more_ticks_last_longer(few: int, many: int, above: int, below: int)
    requires
        0 <= few <= many,
        0 <= above,
        0 < below,
    ensures
        few * above / below <= many * above / below,
        (many - few) * above >= below ==> few * above / below < many * above / below,
{
    assert(few * above <= many * above) by (nonlinear_arith)
        requires
            few <= many,
            0 <= above,
    ;
    lemma_div_is_ordered(few * above, many * above, below);
    if (many - few) * above >= below {
        assert(few * above + below <= many * above) by (nonlinear_arith)
            requires
                (many - few) * above >= below,
        ;
        lemma_div_is_ordered(few * above + below, many * above, below);
        assert((few * above + below) / below == few * above / below + 1) by (nonlinear_arith)
            requires
                below > 0,
        ;
    }
}

/// A path that was read is the path; one that was not, or is empty, could not be seen where the process is
/// still there, and is gone with it where it is not.
pub proof fn law_a_path_or_the_reason(read: Option<String>, exists_still: bool)
    ensures
        processes::path_or_reason(read, exists_still) is Ok <==> read is Some && read->0@.len() > 0,
        processes::path_or_reason(read, exists_still) is Ok ==> processes::path_or_reason(
            read,
            exists_still,
        )->Ok_0 == read->0,
        processes::path_or_reason(read, exists_still) matches Err(why) ==> why == if exists_still {
            PathUnavailable::PermissionDenied
        } else {
            PathUnavailable::ProcessExited
        },
{
}

/// What `ps` prints as days, hours and minutes is their seconds together, with what stands behind the last
/// colon as the seconds.
pub proof fn law_a_clock_of_ps_is_its_seconds(
    days: nat,
    hours: nat,
    minutes: nat,
    seconds: Seq<char>,
)
    requires
        days <= u64::MAX,
        hours <= u64::MAX,
        minutes <= u64::MAX,
        !crate::laws::text::holds(seconds, ':'),
        !crate::laws::text::holds(seconds, '-'),
    ensures
        processes::clock(text::decimal(minutes).push(':') + seconds) == Some(
            ((minutes * 60) as nat, seconds),
        ),
        processes::clock(
            (text::decimal(hours).push(':') + text::decimal(minutes)).push(':') + seconds,
        ) == Some(((hours * 3_600 + minutes * 60) as nat, seconds)),
        processes::clock(
            text::decimal(days).push('-') + ((text::decimal(hours).push(':') + text::decimal(
                minutes,
            )).push(':') + seconds),
        ) == Some(((days * 86_400 + hours * 3_600 + minutes * 60) as nat, seconds)),
{
    let short = text::decimal(minutes).push(':') + seconds;
    let long = (text::decimal(hours).push(':') + text::decimal(minutes)).push(':') + seconds;
    let longest = text::decimal(days).push('-') + long;
    lemma_no_mark(days);
    lemma_no_mark(hours);
    lemma_no_mark(minutes);
    assert forall|i: int| 0 <= i < seconds.len() implies seconds[i] != ':' && seconds[i] != '-' by {
        assert(seconds[i] == seconds[i]);
    }
    text::lemma_one_piece(text::decimal(minutes), ':');
    text::lemma_one_piece(text::decimal(hours), ':');
    text::lemma_one_more_piece(text::decimal(minutes), ':', seconds);
    text::lemma_one_more_piece(text::decimal(hours), ':', text::decimal(minutes));
    text::lemma_one_more_piece(
        text::decimal(hours).push(':') + text::decimal(minutes),
        ':',
        seconds,
    );
    assert(text::pieces(short, ':') =~= seq![text::decimal(minutes), seconds]);
    assert(text::pieces(long, ':') =~= seq![text::decimal(hours), text::decimal(minutes), seconds]);
    assert forall|i: int| 0 <= i < short.len() implies short[i] != '-' by {
        if i > text::decimal(minutes).len() {
            assert(short[i] == seconds[i - text::decimal(minutes).len() - 1]);
        }
    }
    text::lemma_first_at(short, '-', short.len() as int);
    let front = (text::decimal(hours).push(':') + text::decimal(minutes)).push(':');
    assert forall|i: int| 0 <= i < long.len() implies long[i] != '-' by {
        if i >= front.len() {
            assert(long[i] == seconds[i - front.len()]);
        } else if i < text::decimal(hours).len() {
            assert(long[i] == text::decimal(hours)[i]);
        } else if text::decimal(hours).len() < i < front.len() - 1 {
            assert(long[i] == text::decimal(minutes)[i - text::decimal(hours).len() - 1]);
        }
    }
    text::lemma_first_at(long, '-', long.len() as int);
    text::lemma_first_at(longest, '-', text::decimal(days).len() as int);
    assert(longest.take(text::decimal(days).len() as int) =~= text::decimal(days));
    assert(longest.skip((text::decimal(days).len() + 1) as int) =~= long);
    lemma_read(days);
    lemma_read(hours);
    lemma_read(minutes);
}

proof fn lemma_no_mark(value: nat)
    ensures
        forall|i: int|
            0 <= i < text::decimal(value).len() ==> (#[trigger] text::decimal(value)[i]) != ':'
                && text::decimal(value)[i] != '-',
{
    text::lemma_decimal_is_digits(value);
    assert forall|i: int| 0 <= i < text::decimal(value).len() implies (
    #[trigger] text::decimal(value)[i]) != ':' && text::decimal(value)[i] != '-' by {
        assert(text::is_digit(text::decimal(value)[i]));
    }
}

proof fn lemma_read(value: nat)
    requires
        value <= u64::MAX,
    ensures
        processes::number(text::decimal(value)) == Some(value),
{
    text::law_numbers_read_as_written(value, 0, u64::MAX as nat);
}

/// A span that `ps` printed is its whole seconds and the seconds behind them, to the nanosecond.
pub proof fn law_a_printed_span_is_to_the_nanosecond(whole: nat, seconds: (u64, u32))
    ensures
        processes::span_of(whole, seconds) == whole * 1_000_000_000 + seconds.0 * 1_000_000_000
            + seconds.1,
{
}

/// What `ps` calls a size is in units of 1024 bytes.
pub proof fn law_ps_counts_memory_in_kilobytes(resources: Resources, own: Duration, kilobytes: nat)
    requires
        processes::is_coarse(resources, own, kilobytes),
    ensures
        resources.source == ResourceSource::Ps,
        resources.own_cpu is Ok && resources.own_cpu->Ok_0 == own,
        resources.current_memory is Ok && resources.current_memory->Ok_0 == 1024 * kilobytes,
{
}

/// `ps` is asked for the CPU time and the memory of the one process, without headings.
pub proof fn law_what_ps_is_asked(arguments: Seq<Seq<char>>, pid: i32)
    requires
        processes::is_asked_of_ps(arguments, pid),
    ensures
        arguments.len() == 6,
        arguments[0] == "-o"@ && arguments[1] == "time="@,
        arguments[2] == "-o"@ && arguments[3] == "rss="@,
        arguments[4] == "-p"@ && arguments[5] == text::signed_decimal(pid as int),
{
}

/// A memory size in kilobytes can be counted where its bytes can.
pub proof fn law_which_sizes_can_be_counted(printed: Seq<char>, kilobytes: nat)
    requires
        text::words(printed).len() >= 2,
        text::natural(text::words(printed)[1], u64::MAX as nat) == Ok::<nat, text::NumberFault>(
            kilobytes,
        ),
    ensures
        processes::size_fits(printed) <==> kilobytes * 1_024 <= u64::MAX,
{
}

} // verus!
