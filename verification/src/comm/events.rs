//! Handing events to those who asked for them.

use vstd::prelude::*;

use crate::text::{begins_with, same_text, starts_with, take_chars, texts};

verus! {

/// Whether a pattern ends with a star and so stands for all events that begin
/// with what is before it.
pub open spec fn is_prefix_pattern(pattern: Seq<char>) -> bool {
    pattern.len() > 0 && pattern.last() == '*'
}

/// Whether a pattern stands for an event.
pub open spec fn matches_event(pattern: Seq<char>, event_type: Seq<char>) -> bool {
    if is_prefix_pattern(pattern) {
        begins_with(event_type, pattern.drop_last())
    } else {
        pattern == event_type
    }
}

/// Whether a pattern stands for an event.
pub fn pattern_matches(pattern: &str, event_type: &str) -> (r: bool)
    ensures
        r == matches_event(pattern@, event_type@),
{
    let cs = crate::text::chars_of(pattern);
    let n: usize = cs.len();
    if n > 0 && cs[n - 1] == '*' {
        let prefix = take_chars(pattern, n - 1);
        proof {
            assert(pattern@.take(n - 1) =~= pattern@.drop_last());
        }
        starts_with(event_type, prefix.as_str())
    } else {
        same_text(pattern, event_type)
    }
}

/// The positions of the patterns that stand for an event, in order.
pub open spec fn matching(patterns: Seq<Seq<char>>, event_type: Seq<char>) -> Seq<usize>
    decreases patterns.len(),
{
    if patterns.len() == 0 {
        Seq::empty()
    } else {
        let before = matching(patterns.drop_last(), event_type);
        if matches_event(patterns.last(), event_type) {
            before.push((patterns.len() - 1) as usize)
        } else {
            before
        }
    }
}

/// Knows who asked for which events; the handlers are elsewhere, under the
/// positions of the patterns.
#[derive(Debug)]
pub struct EventDispatcher {
    pub patterns: Vec<String>,
}

impl EventDispatcher {
    /// Nobody asked for anything.
    pub fn new() -> (r: Self)
        ensures
            r.patterns@.len() == 0,
    {
        EventDispatcher { patterns: Vec::new() }
    }

    /// Takes a pattern: an event's name, the beginning of names with a star
    /// behind it, or a star alone for all events. Gives its position.
    pub fn on(&mut self, pattern: String) -> (r: usize)
        ensures
            r == old(self).patterns@.len(),
            final(self).patterns@ == old(self).patterns@.push(pattern),
    {
        let at: usize = self.patterns.len();
        self.patterns.push(pattern);
        at
    }

    /// The positions of the patterns that stand for an event, in order.
    pub fn dispatch(&self, event_type: &str) -> (r: Vec<usize>)
        ensures
            r@ == matching(texts(self.patterns@), event_type@),
    {
        let ghost ps = texts(self.patterns@);
        let mut out: Vec<usize> = Vec::new();
        let mut i: usize = 0;
        proof {
            assert(ps.take(0) =~= Seq::<Seq<char>>::empty());
        }
        while i < self.patterns.len()
            invariant
                i <= self.patterns@.len(),
                ps == texts(self.patterns@),
                out@ == matching(ps.take(i as int), event_type@),
            decreases self.patterns@.len() - i,
        {
            proof {
                assert(ps.take(i + 1).drop_last() =~= ps.take(i as int));
                assert(ps[i as int] == self.patterns@[i as int]@);
            }
            if pattern_matches(self.patterns[i].as_str(), event_type) {
                out.push(i);
            }
            i = i + 1;
        }
        proof {
            assert(ps.take(i as int) =~= ps);
        }
        out
    }
}

impl Default for EventDispatcher {
    fn default() -> (r: Self)
        ensures
            r.patterns@.len() == 0,
    {
        Self::new()
    }
}

/// A star alone stands for every event.
pub proof fn lemma_star_matches_all(event_type: Seq<char>)
    ensures
        matches_event("*"@, event_type),
{
    reveal_strlit("*");
    assert("*"@.drop_last() =~= Seq::<char>::empty());
    assert(event_type.take(0) =~= Seq::<char>::empty());
}

/// A pattern with a star behind it stands for exactly the events that begin with
/// what is before the star.
pub proof fn lemma_prefix_pattern(prefix: Seq<char>, event_type: Seq<char>)
    ensures
        matches_event(prefix.push('*'), event_type) == begins_with(event_type, prefix),
{
    assert(prefix.push('*').drop_last() =~= prefix);
}

/// A pattern without a star at its end stands for the event of that name alone.
pub proof fn lemma_exact_pattern(pattern: Seq<char>, event_type: Seq<char>)
    requires
        !is_prefix_pattern(pattern),
    ensures
        matches_event(pattern, event_type) == (pattern == event_type),
{
}

/// Exactly the positions of matching patterns are given.
pub proof fn lemma_dispatch_is_exact(patterns: Seq<Seq<char>>, event_type: Seq<char>)
    requires
        patterns.len() <= usize::MAX,
    ensures
        forall|i: int|
            0 <= i < patterns.len() ==> (matching(patterns, event_type).contains(i as usize)
                <==> matches_event(#[trigger] patterns[i], event_type)),
        forall|k: int|
            0 <= k < matching(patterns, event_type).len() ==> (#[trigger] matching(
                patterns,
                event_type,
            )[k]) < patterns.len(),
    decreases patterns.len(),
{
    if patterns.len() > 0 {
        let d = patterns.drop_last();
        lemma_dispatch_is_exact(d, event_type);
        let before = matching(d, event_type);
        let after = matching(patterns, event_type);
        let n = (patterns.len() - 1) as usize;
        assert forall|i: int| 0 <= i < patterns.len() implies (after.contains(i as usize)
            <==> matches_event(#[trigger] patterns[i], event_type)) by {
            if i < n {
                assert(d[i] == patterns[i]);
                if before.contains(i as usize) {
                    let k = choose|k: int| 0 <= k < before.len() && before[k] == i as usize;
                    assert(after[k] == i as usize);
                }
                if after.contains(i as usize) {
                    let k = choose|k: int| 0 <= k < after.len() && after[k] == i as usize;
                    assert(k < before.len());
                    assert(before[k] == i as usize);
                }
            } else {
                if matches_event(patterns[i], event_type) {
                    assert(after[before.len() as int] == n);
                } else if after.contains(n) {
                    let k = choose|k: int| 0 <= k < after.len() && after[k] == n;
                    assert(before[k] < d.len());
                }
            }
        }
        assert forall|k: int| 0 <= k < after.len() implies (#[trigger] after[k])
            < patterns.len() by {
            if k < before.len() {
                assert(before[k] == after[k]);
            }
        }
    }
}

/// Handlers are called in the order in which they were added, each once at most.
pub proof fn lemma_dispatch_in_order(patterns: Seq<Seq<char>>, event_type: Seq<char>)
    requires
        patterns.len() <= usize::MAX,
    ensures
        forall|i: int, j: int|
            0 <= i < j < matching(patterns, event_type).len() ==> (#[trigger] matching(
                patterns,
                event_type,
            )[i]) < (#[trigger] matching(patterns, event_type)[j]),
    decreases patterns.len(),
{
    if patterns.len() > 0 {
        let before = matching(patterns.drop_last(), event_type);
        let all = matching(patterns, event_type);
        lemma_dispatch_in_order(patterns.drop_last(), event_type);
        lemma_dispatch_is_exact(patterns.drop_last(), event_type);
        assert forall|i: int, j: int| 0 <= i < j < all.len() implies (#[trigger] all[i]) < (
        #[trigger] all[j]) by {
            assert(all[i] == before[i]);
            if j < before.len() {
                assert(all[j] == before[j]);
            }
        }
    }
}

/// A pattern that ends in a star matches what begins with the rest of it, and nothing
/// else; one without matches itself alone.
pub proof fn lemma_what_patterns_match(prefix: Seq<char>, rest: Seq<char>, other: Seq<char>)
    ensures
        matches_event(prefix.push('*'), prefix + rest),
        other.len() < prefix.len() ==> !matches_event(prefix.push('*'), other),
        other.len() >= prefix.len() && other.take(prefix.len() as int) != prefix
            ==> !matches_event(prefix.push('*'), other),
        prefix.len() > 0 && prefix.last() != '*' ==> (matches_event(prefix, prefix + rest)
            <==> rest.len() == 0),
{
    assert(prefix.push('*').drop_last() =~= prefix);
    assert((prefix + rest).take(prefix.len() as int) =~= prefix);
    if rest.len() == 0 {
        assert(prefix + rest =~= prefix);
    } else {
        assert((prefix + rest).len() != prefix.len());
    }
}

} // verus!
