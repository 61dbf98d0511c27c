//! The command lines.

use crate::cli;
use crate::cli::{AgtopRequest, AmonRequest, AmonVerb, CliError, VerbState};
use crate::text;
use vstd::prelude::*;

verus! {

/// Each verb is called by its own word.
pub proof fn law_what_the_verbs_are_called()
    ensures
        AmonVerb::Watch.word() == "watch"@,
        AmonVerb::Install.word() == "install"@,
        AmonVerb::Uninstall.word() == "uninstall"@,
        AmonVerb::Status.word() == "status"@,
        AmonVerb::Probe.word() == "probe"@,
        AmonVerb::Report.word() == "report"@,
{
}

/// Every verb is listed, once.
pub proof fn law_every_verb_is_listed(verb: AmonVerb)
    ensures
        AmonVerb::verbs().contains(verb),
        AmonVerb::verbs().len() == 6,
        verb.standing() is Available <==> verb != AmonVerb::Probe && verb != AmonVerb::Report,
{
    let at = match verb {
        AmonVerb::Watch => 0int,
        AmonVerb::Install => 1,
        AmonVerb::Uninstall => 2,
        AmonVerb::Status => 3,
        AmonVerb::Probe => 4,
        AmonVerb::Report => 5,
    };
    assert(AmonVerb::verbs()[at] == verb);
}

/// The first argument that a verb does not take is no foreground flag, or the verb does not watch; and
/// everything before it is the flag, behind `watch`.
pub proof fn law_the_first_unfit_argument(arguments: Seq<String>, verb: AmonVerb, from: int)
    requires
        0 <= from <= arguments.len(),
    ensures
        match cli::first_unfit(arguments, verb, from) {
            Some(at) => {
                &&& from <= at < arguments.len()
                &&& arguments[at]@ != "--foreground"@ || verb != AmonVerb::Watch
                &&& forall|i: int|
                    from <= i < at ==> (#[trigger] arguments[i])@ == "--foreground"@
                &&& at > from ==> verb == AmonVerb::Watch
            },
            None => {
                &&& forall|i: int|
                    from <= i < arguments.len() ==> (#[trigger] arguments[i])@ == "--foreground"@
                &&& from < arguments.len() ==> verb == AmonVerb::Watch
            },
        },
    decreases arguments.len() - from,
{
    if from < arguments.len() && arguments[from]@ == "--foreground"@ && verb == AmonVerb::Watch {
        law_the_first_unfit_argument(arguments, verb, from + 1);
    }
}

/// A verb alone is that verb, in the background; nothing at all is no verb; and help is help whatever
/// follows.
pub proof fn law_a_verb_alone(
    request: Result<AmonRequest, CliError>,
    arguments: Seq<String>,
    verb: AmonVerb,
)
    requires
        cli::is_amon_request(request, arguments),
    ensures
        arguments.len() == 0 <==> request == Err::<AmonRequest, CliError>(CliError::NoVerb),
        arguments.len() == 1 && arguments[0]@ == verb.word() ==> request == Ok::<
            AmonRequest,
            CliError,
        >(AmonRequest::Verb { verb, foreground: false }),
        arguments.len() > 0 && (arguments[0]@ == "--help"@ || arguments[0]@ == "-h"@) <==> request
            == Ok::<AmonRequest, CliError>(AmonRequest::Help),
{
    lemma_help_is_no_verb(verb);
    if let Ok(AmonRequest::Verb { verb: found, .. }) = request {
        if arguments.len() == 1 && arguments[0]@ == verb.word() {
            cli::law_a_verb_is_found_by_its_name(found, verb);
        }
    }
    assert(cli::first_unfit(arguments, verb, 1) is None || arguments.len() > 1);
    if let Err(CliError::UnknownVerb(_)) = request {
        assert(arguments[0]@ != verb.word());
    }
}

/// The foreground flag is taken by `watch`, and by no other verb; anything else behind a verb is
/// unexpected.
pub proof fn law_only_watching_takes_the_flag(
    request: Result<AmonRequest, CliError>,
    arguments: Seq<String>,
    verb: AmonVerb,
)
    requires
        cli::is_amon_request(request, arguments),
        arguments.len() == 2,
        arguments[0]@ == verb.word(),
    ensures
        arguments[1]@ == "--foreground"@ && verb == AmonVerb::Watch ==> request == Ok::<
            AmonRequest,
            CliError,
        >(AmonRequest::Verb { verb, foreground: true }),
        arguments[1]@ == "--foreground"@ && verb != AmonVerb::Watch ==> request == Err::<
            AmonRequest,
            CliError,
        >(CliError::FlagNotValidFor { flag: arguments[1], verb }),
        arguments[1]@ != "--foreground"@ ==> request == Err::<AmonRequest, CliError>(
            CliError::UnexpectedArgument(arguments[1]),
        ),
{
    lemma_help_is_no_verb(verb);
    law_the_first_unfit_argument(arguments, verb, 1);
    assert(cli::first_unfit(arguments, verb, 2) is None);
    match request {
        Ok(AmonRequest::Verb { verb: found, .. }) => {
            cli::law_a_verb_is_found_by_its_name(found, verb);
        },
        Err(CliError::UnknownVerb(_)) => {
            assert(verb.word() != arguments[0]@);
        },
        Err(CliError::FlagNotValidFor { flag, verb: found }) => {
            cli::law_a_verb_is_found_by_its_name(found, verb);
        },
        Err(CliError::UnexpectedArgument(argument)) => {
            let found = choose|found: AmonVerb|
                {
                    &&& #[trigger] found.word() == arguments[0]@
                    &&& cli::first_unfit(arguments, found, 1) matches Some(at) && argument
                        == arguments[at] && argument@ != "--foreground"@
                };
            cli::law_a_verb_is_found_by_its_name(found, verb);
        },
        _ => {},
    }
}

/// A word that is neither a verb nor a request for help is an unknown verb, and is named.
pub proof fn law_an_unknown_verb_is_named(
    request: Result<AmonRequest, CliError>,
    arguments: Seq<String>,
)
    requires
        cli::is_amon_request(request, arguments),
        arguments.len() > 0,
        arguments[0]@ != "--help"@,
        arguments[0]@ != "-h"@,
        forall|verb: AmonVerb| #[trigger] verb.word() != arguments[0]@,
    ensures
        request == Err::<AmonRequest, CliError>(CliError::UnknownVerb(arguments[0])),
{
}

proof fn lemma_help_is_no_verb(verb: AmonVerb)
    ensures
        verb.word() != "--help"@,
        verb.word() != "-h"@,
{
    reveal_strlit("watch");
    reveal_strlit("install");
    reveal_strlit("uninstall");
    reveal_strlit("status");
    reveal_strlit("probe");
    reveal_strlit("report");
    reveal_strlit("--help");
    reveal_strlit("-h");
    assert("--help"@[0] == '-' && "-h"@[0] == '-');
    assert(verb.word()[0] != '-');
}

/// The first argument that decides the display's command line is the first that is not `--once`.
pub proof fn law_the_first_decisive_argument(arguments: Seq<String>, from: int)
    requires
        0 <= from <= arguments.len(),
    ensures
        match cli::first_decisive(arguments, from) {
            Some(at) => {
                &&& from <= at < arguments.len()
                &&& arguments[at]@ != "--once"@
                &&& forall|i: int| from <= i < at ==> (#[trigger] arguments[i])@ == "--once"@
            },
            None => forall|i: int|
                from <= i < arguments.len() ==> (#[trigger] arguments[i])@ == "--once"@,
        },
    decreases arguments.len() - from,
{
    if from < arguments.len() && arguments[from]@ == "--once"@ {
        law_the_first_decisive_argument(arguments, from + 1);
    }
}

/// The display is live without arguments, draws once if all of them are `--once`, and gives help or refuses
/// by the first that is not.
pub proof fn law_what_the_display_is_asked(
    request: Result<AgtopRequest, CliError>,
    arguments: Seq<String>,
    at: int,
)
    requires
        cli::is_agtop_request(request, arguments),
    ensures
        request == Ok::<AgtopRequest, CliError>(AgtopRequest::Live) <==> arguments.len() == 0,
        request == Ok::<AgtopRequest, CliError>(AgtopRequest::Once) <==> arguments.len() > 0
            && forall|i: int| 0 <= i < arguments.len() ==> (#[trigger] arguments[i])@ == "--once"@,
        0 <= at < arguments.len() && arguments[at]@ != "--once"@ && (forall|i: int|
            0 <= i < at ==> (#[trigger] arguments[i])@ == "--once"@) ==> request == if arguments[at]@
            == "--help"@ || arguments[at]@ == "-h"@ {
            Ok::<AgtopRequest, CliError>(AgtopRequest::Help)
        } else {
            Err(CliError::UnexpectedArgument(arguments[at]))
        },
{
    law_the_first_decisive_argument(arguments, 0);
    if let Some(first) = cli::first_decisive(arguments, 0) {
        assert(arguments[first]@ != "--once"@);
        if 0 <= at < arguments.len() && arguments[at]@ != "--once"@ && (forall|i: int|
            0 <= i < at ==> (#[trigger] arguments[i])@ == "--once"@) {
            assert(first == at) by {
                if first < at {
                    assert(arguments[first]@ == "--once"@);
                }
            }
        }
    }
}

/// The longest name is some verb's, and no verb's is longer.
pub proof fn law_no_name_is_longer_than_the_longest(verbs: Seq<AmonVerb>)
    ensures
        forall|i: int|
            0 <= i < verbs.len() ==> (#[trigger] verbs[i]).word().len() <= cli::longest_name(verbs),
        verbs.len() > 0 ==> exists|i: int|
            0 <= i < verbs.len() && (#[trigger] verbs[i]).word().len() == cli::longest_name(verbs),
    decreases verbs.len(),
{
    if verbs.len() > 0 {
        let fewer = verbs.drop_last();
        law_no_name_is_longer_than_the_longest(fewer);
        assert forall|i: int| 0 <= i < fewer.len() implies #[trigger] verbs[i] == fewer[i] by {
        }
        assert(verbs[verbs.len() - 1] == verbs.last());
        if fewer.len() > 0 {
            let i = choose|i: int|
                0 <= i < fewer.len() && (#[trigger] fewer[i]).word().len() == cli::longest_name(
                    fewer,
                );
            assert(verbs[i] == fewer[i]);
        }
    }
}

/// Verbs are explained one after the other, a line for each.
pub proof fn law_a_line_for_every_verb(
    one: Seq<AmonVerb>,
    other: Seq<AmonVerb>,
    single: AmonVerb,
    width: nat,
)
    ensures
        cli::verb_lines(one + other, width) == cli::verb_lines(one, width) + cli::verb_lines(
            other,
            width,
        ),
        cli::verb_lines(seq![single], width) == cli::verb_line(single, width),
        text::contains_text(cli::verb_line(single, width), single.purpose()),
        text::contains_text(
            cli::verb_line(single, width),
            text::filled_right(single.word(), width),
        ),
    decreases other.len(),
{
    if other.len() == 0 {
        assert(one + other =~= one);
        assert(cli::verb_lines(other, width) =~= Seq::<char>::empty());
    } else {
        law_a_line_for_every_verb(one, other.drop_last(), single, width);
        assert((one + other).drop_last() =~= one + other.drop_last());
    }
    assert(cli::verb_lines(one + other, width) =~= cli::verb_lines(one, width) + cli::verb_lines(
        other,
        width,
    ));
    assert(seq![single].drop_last() =~= Seq::<AmonVerb>::empty());
    assert(cli::verb_lines(seq![single].drop_last(), width) =~= Seq::<char>::empty());
    assert(cli::verb_lines(seq![single], width) =~= cli::verb_line(single, width));
    let name = text::filled_right(single.word(), width);
    let note = single.standing().note();
    super::text::law_what_stands_in_a_text(
        "    "@,
        name,
        "  "@ + single.purpose() + note + "\n"@,
    );
    super::text::law_what_stands_in_a_text(
        "    "@ + name + "  "@,
        single.purpose(),
        note + "\n"@,
    );
    assert(cli::verb_line(single, width) =~= "    "@ + name + ("  "@ + single.purpose() + note
        + "\n"@));
    assert(cli::verb_line(single, width) =~= ("    "@ + name + "  "@) + single.purpose() + (note
        + "\n"@));
}

/// A verb that is done has nothing noted of it, and one that is not has what it is tracked as.
pub proof fn law_what_is_unfinished_says_so(tracked_as: &'static str, built: &'static str)
    ensures
        VerbState::Available.note().len() == 0,
        text::contains_text(VerbState::Planned { tracked_as }.note(), tracked_as@),
        text::contains_text(VerbState::Partial { built, tracked_as }.note(), tracked_as@),
        text::contains_text(VerbState::Partial { built, tracked_as }.note(), built@),
{
    super::text::law_what_stands_in_a_text("  (not built yet — "@, tracked_as@, ")"@);
    super::text::law_what_stands_in_a_text(
        "  (has "@,
        built@,
        "; still not usable — "@ + tracked_as@ + ")"@,
    );
    super::text::law_what_stands_in_a_text(
        "  (has "@ + built@ + "; still not usable — "@,
        tracked_as@,
        ")"@,
    );
    let planned = VerbState::Planned { tracked_as }.note();
    assert(planned =~= "  (not built yet — "@ + tracked_as@ + ")"@);
    let partial = VerbState::Partial { built, tracked_as }.note();
    assert(partial =~= "  (has "@ + built@ + ("; still not usable — "@ + tracked_as@ + ")"@));
    assert(partial =~= ("  (has "@ + built@ + "; still not usable — "@) + tracked_as@ + ")"@);
}

} // verus!
