//! Recognising an agent by the path of its executable.

use crate::text;
use vstd::prelude::*;

verus! {

/// How one agent CLI is recognised.
#[derive(Debug, PartialEq, Eq)]
pub struct Detector {
    /// What the CLI is called.
    pub id: String,
    /// Any of these anywhere in the path.
    pub exe_contains: Vec<String>,
    /// Any of these at the end of the path.
    pub exe_ends_with: Vec<String>,
}

impl Detector {
    /// Whether a path is this CLI's.
    pub open spec fn recognises(self, path: Seq<char>) -> bool {
        ||| exists|i: int|
            0 <= i < self.exe_contains@.len() && text::contains_text(
                path,
                #[trigger] self.exe_contains@[i]@,
            )
        ||| exists|i: int|
            0 <= i < self.exe_ends_with@.len() && text::ends_in(
                path,
                #[trigger] self.exe_ends_with@[i]@,
            )
    }

    /// Whether a path is this CLI's.
    pub fn matches(&self, exe_path: &str) -> (found: bool)
        ensures
            found == self.recognises(exe_path@),
    {
        let path: Vec<char> = text::characters(exe_path);
        let mut next: usize = 0;
        while next < self.exe_contains.len()
            invariant
                next <= self.exe_contains@.len(),
                path@ == exe_path@,
                forall|i: int|
                    0 <= i < next ==> !text::contains_text(
                        path@,
                        #[trigger] self.exe_contains@[i]@,
                    ),
            decreases self.exe_contains@.len() - next,
        {
            if text::contains(&path, &text::characters(self.exe_contains[next].as_str())) {
                assert(text::contains_text(path@, self.exe_contains@[next as int]@));
                return true;
            }
            next += 1;
        }
        let mut next: usize = 0;
        while next < self.exe_ends_with.len()
            invariant
                next <= self.exe_ends_with@.len(),
                path@ == exe_path@,
                forall|i: int|
                    0 <= i < self.exe_contains@.len() ==> !text::contains_text(
                        path@,
                        #[trigger] self.exe_contains@[i]@,
                    ),
                forall|i: int|
                    0 <= i < next ==> !text::ends_in(path@, #[trigger] self.exe_ends_with@[i]@),
            decreases self.exe_ends_with@.len() - next,
        {
            if text::ends_with(&path, &text::characters(self.exe_ends_with[next].as_str())) {
                assert(text::ends_in(path@, self.exe_ends_with@[next as int]@));
                return true;
            }
            next += 1;
        }
        false
    }

    /// Whether there is anything the detector could recognise a path by.
    pub open spec fn can_recognise(self) -> bool {
        self.exe_contains@.len() > 0 || self.exe_ends_with@.len() > 0
    }

    fn has_a_rule(&self) -> (any: bool)
        ensures
            any == self.can_recognise(),
    {
        self.exe_contains.len() > 0 || self.exe_ends_with.len() > 0
    }
}

/// A detector without a rule recognises nothing.
pub proof fn law_without_a_rule_nothing_is_recognised(detector: Detector, path: Seq<char>)
    requires
        !detector.can_recognise(),
    ensures
        !detector.recognises(path),
{
}

/// The first detector that recognises a path, by position.
pub open spec fn first_match(detectors: Seq<Detector>, path: Seq<char>) -> Option<int>
    decreases detectors.len(),
{
    if detectors.len() == 0 {
        None
    } else {
        match first_match(detectors.drop_last(), path) {
            Some(found) => Some(found),
            None => if detectors.last().recognises(path) {
                Some(detectors.len() - 1)
            } else {
                None
            },
        }
    }
}

/// The first detector that recognises a path.
pub fn find<'a>(detectors: &'a Vec<Detector>, exe_path: &str) -> (found: Option<&'a Detector>)
    ensures
        match first_match(detectors@, exe_path@) {
            Some(at) => 0 <= at < detectors@.len() && found == Some(&detectors@[at]),
            None => found is None,
        },
{
    let mut next: usize = 0;
    let mut found: Option<usize> = None;
    while next < detectors.len()
        invariant
            next <= detectors@.len(),
            match found {
                Some(at) => at < next && first_match(detectors@.take(next as int), exe_path@)
                    == Some(at as int),
                None => first_match(detectors@.take(next as int), exe_path@) is None,
            },
        decreases detectors@.len() - next,
    {
        assert(detectors@.take(next + 1).drop_last() =~= detectors@.take(next as int));
        if found.is_none() && detectors[next].matches(exe_path) {
            found = Some(next);
        }
        next += 1;
    }
    assert(detectors@.take(next as int) =~= detectors@);
    match found {
        Some(at) => Some(&detectors[at]),
        None => None,
    }
}

/// What is said of a detector without a rule.
pub open spec fn toothless(id: Seq<char>) -> Seq<char> {
    "detector "@ + text::quoted(id)
        + " has no matching rules — it would silently recognise nothing"@
}

/// Accepts detectors a user wrote, or says which is the first that could recognise nothing.
pub fn accept_user_detectors(detectors: Vec<Detector>) -> (accepted: Result<Vec<Detector>, String>)
    ensures
        is_accepted(accepted, detectors),
{
    let mut next: usize = 0;
    while next < detectors.len()
        invariant
            next <= detectors@.len(),
            forall|i: int| 0 <= i < next ==> (#[trigger] detectors@[i]).can_recognise(),
        decreases detectors@.len() - next,
    {
        if !detectors[next].has_a_rule() {
            let why = String::from_str("detector ").concat(
                text::quote(detectors[next].id.as_str()).as_str(),
            ).concat(" has no matching rules — it would silently recognise nothing");
            assert(!detectors@[next as int].can_recognise());
            return Err(why);
        }
        next += 1;
    }
    Ok(detectors)
}

/// Whether this is what became of detectors a user wrote: all of them, where each could recognise
/// something, or what is wrong with the first that could not.
pub open spec fn is_accepted(
    accepted: Result<Vec<Detector>, String>,
    detectors: Vec<Detector>,
) -> bool {
    match accepted {
        Ok(kept) => kept == detectors && forall|i: int|
            0 <= i < detectors@.len() ==> (#[trigger] detectors@[i]).can_recognise(),
        Err(why) => exists|i: int|
            {
                &&& 0 <= i < detectors@.len()
                &&& !(#[trigger] detectors@[i]).can_recognise()
                &&& forall|j: int| 0 <= j < i ==> (#[trigger] detectors@[j]).can_recognise()
                &&& why@ == toothless(detectors@[i].id@)
            },
    }
}

/// What came of a user's configuration: its detectors, or why they cannot be used.
pub fn parse_user_detectors(decoded: Result<Vec<Detector>, String>) -> (accepted: Result<
    Vec<Detector>,
    String,
>)
    ensures
        match decoded {
            Ok(detectors) => is_accepted(accepted, detectors),
            Err(error) => accepted matches Err(why) && why@
                == "could not parse detector configuration: "@ + error@,
        },
{
    match decoded {
        Ok(detectors) => accept_user_detectors(detectors),
        Err(error) => Err(
            String::from_str("could not parse detector configuration: ").concat(error.as_str()),
        ),
    }
}

/// Where a detector with an id stands, if anywhere: the first place.
pub open spec fn place_of(detectors: Seq<Detector>, id: Seq<char>) -> Option<int>
    decreases detectors.len(),
{
    if detectors.len() == 0 {
        None
    } else {
        match place_of(detectors.drop_last(), id) {
            Some(found) => Some(found),
            None => if detectors.last().id@ == id {
                Some(detectors.len() - 1)
            } else {
                None
            },
        }
    }
}

/// One more detector laid over some: in the place of the one with its id, or behind them all.
pub open spec fn laid_over(detectors: Seq<Detector>, one: Detector) -> Seq<Detector> {
    match place_of(detectors, one.id@) {
        Some(at) => detectors.update(at, one),
        None => detectors.push(one),
    }
}

/// A user's detectors laid over the ones that come with the tool, one after the other.
pub open spec fn merged(embedded: Seq<Detector>, user: Seq<Detector>) -> Seq<Detector>
    decreases user.len(),
{
    if user.len() == 0 {
        embedded
    } else {
        laid_over(merged(embedded, user.drop_last()), user.last())
    }
}

fn position(detectors: &Vec<Detector>, id: &str) -> (at: Option<usize>)
    ensures
        match at {
            Some(found) => found < detectors@.len() && place_of(detectors@, id@) == Some(
                found as int,
            ),
            None => place_of(detectors@, id@) is None,
        },
{
    let mut next: usize = 0;
    let mut at: Option<usize> = None;
    while next < detectors.len()
        invariant
            next <= detectors@.len(),
            match at {
                Some(found) => found < next && place_of(detectors@.take(next as int), id@) == Some(
                    found as int,
                ),
                None => place_of(detectors@.take(next as int), id@) is None,
            },
        decreases detectors@.len() - next,
    {
        assert(detectors@.take(next + 1).drop_last() =~= detectors@.take(next as int));
        if at.is_none() && text::same(detectors[next].id.as_str(), id) {
            at = Some(next);
        }
        next += 1;
    }
    assert(detectors@.take(next as int) =~= detectors@);
    at
}

/// A user's detectors laid over the ones that come with the tool.
pub fn merge_detectors(embedded: Vec<Detector>, user: Vec<Detector>) -> (result: Vec<Detector>)
    ensures
        result@ == merged(embedded@, user@),
{
    let mut result: Vec<Detector> = embedded;
    assert(user@.take(0) =~= Seq::<Detector>::empty());
    for one in walk: user
        invariant
            walk.seq() == user@,
            result@ == merged(embedded@, user@.take(walk.index() as int)),
    {
        let ghost at = walk.index() as int;
        assert(user@.take(at + 1).drop_last() =~= user@.take(at));
        match position(&result, one.id.as_str()) {
            Some(place) => {
                result.set(place, one);
            },
            None => {
                result.push(one);
            },
        }
    }
    assert(user@.take(user@.len() as int) =~= user@);
    result
}

/// Whether no two detectors share an id.
pub open spec fn ids_differ(detectors: Seq<Detector>) -> bool {
    forall|i: int, j: int|
        0 <= i < j < detectors.len() ==> (#[trigger] detectors[i]).id@ != (
        #[trigger] detectors[j]).id@
}

proof fn lemma_place_of(detectors: Seq<Detector>, id: Seq<char>)
    ensures
        match place_of(detectors, id) {
            Some(at) => 0 <= at < detectors.len() && detectors[at].id@ == id,
            None => forall|i: int| 0 <= i < detectors.len() ==> (#[trigger] detectors[i]).id@ != id,
        },
    decreases detectors.len(),
{
    if detectors.len() > 0 {
        lemma_place_of(detectors.drop_last(), id);
        if place_of(detectors, id) is None {
            assert forall|i: int| 0 <= i < detectors.len() implies (#[trigger] detectors[i]).id@
                != id by {
                if i < detectors.len() - 1 {
                    assert(detectors.drop_last()[i] == detectors[i]);
                }
            }
        }
    }
}

/// Laying a user's detectors over others keeps ids apart, keeps every id that was there, and makes
/// the last detector a user wrote for an id the one that holds it.
pub proof fn law_user_detectors_win(embedded: Seq<Detector>, user: Seq<Detector>)
    requires
        ids_differ(embedded),
    ensures
        ids_differ(merged(embedded, user)),
        merged(embedded, user).len() >= embedded.len(),
        forall|i: int|
            0 <= i < embedded.len() ==> (#[trigger] merged(embedded, user)[i]).id@
                == embedded[i].id@,
        user.len() > 0 ==> merged(embedded, user).contains(user.last()),
    decreases user.len(),
{
    if user.len() > 0 {
        let before = merged(embedded, user.drop_last());
        let after = merged(embedded, user);
        law_user_detectors_win(embedded, user.drop_last());
        lemma_place_of(before, user.last().id@);
        match place_of(before, user.last().id@) {
            Some(at) => {
                assert(after[at] == user.last());
            },
            None => {
                assert(after[before.len() as int] == user.last());
            },
        }
        assert forall|i: int| 0 <= i < embedded.len() implies (#[trigger] after[i]).id@ == embedded[i].id@ by {
            assert(before[i].id@ == embedded[i].id@);
        }
    }
}

} // verus!
