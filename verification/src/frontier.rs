//! Per-identifier progress markers.
//!
//! A [`Frontier`] maps persistent identifiers to progress tokens. Tokens are
//! ordered, with a minimum meaning "no progress", and the join of two tokens
//! is the larger one. A published entry never decreases: progress reports
//! with non-dominating tokens are rejected as harmless no-ops.

use vstd::prelude::*;
use crate::registry::PersistentId;

verus! {

/// Backend-defined progress token. Tokens are totally ordered, `0` is the
/// minimum ("no progress"), and the join of two tokens is the larger one.
pub type Token = u64;

/// The join (least upper bound) of two progress tokens.
pub open spec fn token_join(a: Token, b: Token) -> Token {
    if a < b {
        b
    } else {
        a
    }
}

/// Pointwise join of two frontier maps: defined on every identifier present
/// in either input, and on each identifier the value dominates both inputs.
pub open spec fn merged(
    a: Map<PersistentId, Token>,
    b: Map<PersistentId, Token>,
) -> Map<PersistentId, Token> {
    Map::new(
        |id: PersistentId| a.dom().contains(id) || b.dom().contains(id),
        |id: PersistentId|
            if a.dom().contains(id) && b.dom().contains(id) {
                token_join(a[id], b[id])
            } else if a.dom().contains(id) {
                a[id]
            } else {
                b[id]
            },
    )
}

/// The effect of one progress report on a frontier map: the token is
/// recorded if it dominates the existing entry (or there is none), and the
/// report is a no-op otherwise.
pub open spec fn advanced(
    m: Map<PersistentId, Token>,
    id: PersistentId,
    token: Token,
) -> Map<PersistentId, Token> {
    if !m.dom().contains(id) || m[id] < token {
        m.insert(id, token)
    } else {
        m
    }
}

/// The map denoted by a sequence of (identifier, token) entries; a later
/// entry overrides an earlier one with the same identifier.
spec fn entries_map(s: Seq<(PersistentId, Token)>) -> Map<PersistentId, Token>
    decreases s.len(),
{
    if s.len() == 0 {
        Map::empty()
    } else {
        entries_map(s.drop_last()).insert(s.last().0, s.last().1)
    }
}

/// Whether no identifier occurs twice in an entry sequence.
spec fn distinct_keys(s: Seq<(PersistentId, Token)>) -> bool {
    forall|i: int, j: int| 0 <= i < j < s.len() ==> (#[trigger] s[i]).0 != (#[trigger] s[j]).0
}

/// An identifier is in the denoted map exactly when some entry carries it.
proof fn lemma_entries_map_dom(s: Seq<(PersistentId, Token)>)
    ensures
        forall|id: PersistentId|
            entries_map(s).dom().contains(id) == exists|i: int|
                0 <= i < s.len() && (#[trigger] s[i]).0 == id,
    decreases s.len(),
{
    if s.len() > 0 {
        lemma_entries_map_dom(s.drop_last());
        assert forall|id: PersistentId| entries_map(s).dom().contains(id) implies exists|i: int|
            0 <= i < s.len() && (#[trigger] s[i]).0 == id by {
            if id == s.last().0 {
                assert((s[s.len() - 1]).0 == id);
            } else {
                assert(entries_map(s) == entries_map(s.drop_last()).insert(
                    s.last().0,
                    s.last().1,
                ));
                assert(entries_map(s.drop_last()).dom().contains(id));
                let i = choose|i: int|
                    0 <= i < s.drop_last().len() && (#[trigger] s.drop_last()[i]).0 == id;
                assert(s.drop_last()[i] == s[i]);
                assert((s[i]).0 == id);
            }
        }
        assert forall|id: PersistentId|
            (exists|i: int| 0 <= i < s.len() && (#[trigger] s[i]).0 == id) implies entries_map(
            s,
        ).dom().contains(id) by {
            let i = choose|i: int| 0 <= i < s.len() && (#[trigger] s[i]).0 == id;
            assert(entries_map(s) == entries_map(s.drop_last()).insert(s.last().0, s.last().1));
            if i < s.len() - 1 {
                assert(s.drop_last()[i] == s[i]);
                assert((s.drop_last()[i]).0 == id);
                assert(entries_map(s.drop_last()).dom().contains(id));
            } else {
                assert(s.last().0 == id);
            }
        }
    }
}

/// Under distinct keys, each entry is reflected exactly in the denoted map.
proof fn lemma_entries_map_at(s: Seq<(PersistentId, Token)>, i: int)
    requires
        distinct_keys(s),
        0 <= i < s.len(),
    ensures
        entries_map(s).dom().contains(s[i].0),
        entries_map(s)[s[i].0] == s[i].1,
    decreases s.len(),
{
    if i == s.len() - 1 {
    } else {
        assert(s.drop_last()[i] == s[i]);
        lemma_entries_map_at(s.drop_last(), i);
        assert(s.last().0 != s[i].0);
    }
}

/// Updating the entry that carries an identifier updates the denoted map.
proof fn lemma_entries_map_update(s: Seq<(PersistentId, Token)>, i: int, token: Token)
    requires
        distinct_keys(s),
        0 <= i < s.len(),
    ensures
        entries_map(s.update(i, (s[i].0, token))) == entries_map(s).insert(s[i].0, token),
    decreases s.len(),
{
    let id = s[i].0;
    let t = s.update(i, (id, token));
    if i == s.len() - 1 {
        assert(t.drop_last() =~= s.drop_last());
        assert(entries_map(t) == entries_map(s.drop_last()).insert(id, token));
        assert(entries_map(s).insert(id, token) =~= entries_map(s.drop_last()).insert(id, token));
    } else {
        assert(t.drop_last() =~= s.drop_last().update(i, (id, token)));
        assert(s.drop_last()[i] == s[i]);
        lemma_entries_map_update(s.drop_last(), i, token);
        assert(t.last() == s.last());
        assert(entries_map(t) == entries_map(s.drop_last()).insert(id, token).insert(
            s.last().0,
            s.last().1,
        ));
        assert(s.last().0 != id);
        assert(entries_map(s.drop_last()).insert(id, token).insert(s.last().0, s.last().1)
            =~= entries_map(s.drop_last()).insert(s.last().0, s.last().1).insert(id, token));
    }
}

/// Appending an entry with a fresh identifier inserts it into the denoted map.
proof fn lemma_entries_map_push(s: Seq<(PersistentId, Token)>, id: PersistentId, token: Token)
    ensures
        entries_map(s.push((id, token))) == entries_map(s).insert(id, token),
{
    assert(s.push((id, token)).drop_last() =~= s);
}

/// Per-identifier progress marker set.
///
/// The live frontier is owned by one tracker and mutated only through it, so
/// a mutation here never interleaves with another; a checkpoint works on a
/// [`Frontier::snapshot`] rather than freezing the live value.
pub struct Frontier {
    entries: Vec<(PersistentId, Token)>,
}

impl View for Frontier {
    type V = Map<PersistentId, Token>;

    closed spec fn view(&self) -> Map<PersistentId, Token> {
        entries_map(self.entries@)
    }
}

impl Frontier {
    #[verifier::type_invariant]
    spec fn wf(&self) -> bool {
        distinct_keys(self.entries@)
    }

    /// An empty frontier: no identifier has made any progress.
    pub fn new() -> (r: Frontier)
        ensures
            r@ == Map::<PersistentId, Token>::empty(),
    {
        Frontier { entries: Vec::new() }
    }

    /// Current progress of an identifier, or `None` if it has reported none.
    pub fn get(&self, id: PersistentId) -> (r: Option<Token>)
        ensures
            r == if self@.dom().contains(id) {
                Some(self@[id])
            } else {
                None::<Token>
            },
    {
        proof {
            use_type_invariant(self);
        }
        let n = self.entries.len();
        let mut i: usize = 0;
        while i < n
            invariant
                n == self.entries@.len(),
                0 <= i <= n,
                distinct_keys(self.entries@),
                self@ == entries_map(self.entries@),
                forall|j: int| 0 <= j < i ==> (#[trigger] self.entries@[j]).0 != id,
            decreases n - i,
        {
            if self.entries[i].0 == id {
                proof {
                    lemma_entries_map_at(self.entries@, i as int);
                }
                return Some(self.entries[i].1);
            }
            i += 1;
        }
        proof {
            lemma_entries_map_dom(self.entries@);
        }
        None
    }

    /// Records a progress report.
    ///
    /// The report is accepted exactly when `token` dominates the identifier's
    /// existing entry (or it has none); otherwise — a duplicate or
    /// out-of-order report, expected under retries — it is rejected as a
    /// harmless no-op, never an error.
    pub fn advance(&mut self, id: PersistentId, token: Token) -> (accepted: bool)
        ensures
            accepted == (!old(self)@.dom().contains(id) || old(self)@[id] < token),
            final(self)@ == advanced(old(self)@, id, token),
    {
        proof {
            use_type_invariant(&*self);
        }
        let n = self.entries.len();
        let mut i: usize = 0;
        while i < n
            invariant
                n == self.entries@.len(),
                0 <= i <= n,
                distinct_keys(self.entries@),
                self@ == entries_map(self.entries@),
                self == old(self),
                forall|j: int| 0 <= j < i ==> (#[trigger] self.entries@[j]).0 != id,
            decreases n - i,
        {
            if self.entries[i].0 == id {
                proof {
                    lemma_entries_map_at(self.entries@, i as int);
                }
                if self.entries[i].1 < token {
                    proof {
                        lemma_entries_map_update(self.entries@, i as int, token);
                    }
                    let mut entries: Vec<(PersistentId, Token)> = Vec::new();
                    std::mem::swap(&mut entries, &mut self.entries);
                    entries[i] = (id, token);
                    self.entries = entries;
                    return true;
                } else {
                    return false;
                }
            }
            i += 1;
        }
        proof {
            lemma_entries_map_dom(self.entries@);
            lemma_entries_map_push(self.entries@, id, token);
        }
        let mut entries: Vec<(PersistentId, Token)> = Vec::new();
        std::mem::swap(&mut entries, &mut self.entries);
        entries.push((id, token));
        self.entries = entries;
        true
    }

    /// Immutable copy for a checkpoint record: further progress reports on
    /// the live frontier leave the copy untouched.
    pub fn snapshot(&self) -> (r: Frontier)
        ensures
            r@ == self@,
    {
        proof {
            use_type_invariant(self);
        }
        let n = self.entries.len();
        let mut entries: Vec<(PersistentId, Token)> = Vec::new();
        let mut i: usize = 0;
        while i < n
            invariant
                n == self.entries@.len(),
                0 <= i <= n,
                entries@ == self.entries@.take(i as int),
            decreases n - i,
        {
            entries.push(self.entries[i]);
            proof {
                assert(entries@ =~= self.entries@.take(i + 1));
            }
            i += 1;
        }
        proof {
            assert(entries@ =~= self.entries@);
        }
        Frontier { entries }
    }

    /// Pointwise join: the result dominates both inputs on every identifier
    /// present in either.
    pub fn merge(&self, other: &Frontier) -> (r: Frontier)
        ensures
            r@ == merged(self@, other@),
    {
        proof {
            use_type_invariant(self);
            use_type_invariant(other);
        }
        let mut r = self.snapshot();
        let n = other.entries.len();
        let mut i: usize = 0;
        while i < n
            invariant
                n == other.entries@.len(),
                0 <= i <= n,
                distinct_keys(other.entries@),
                other@ == entries_map(other.entries@),
                r@ == merged(self@, entries_map(other.entries@.take(i as int))),
            decreases n - i,
        {
            let (id, token) = other.entries[i];
            proof {
                lemma_merge_advance_step(self@, other.entries@, i as int, r@);
            }
            r.advance(id, token);
            i += 1;
        }
        proof {
            assert(other.entries@.take(n as int) =~= other.entries@);
        }
        r
    }
}

/// One step of the merge loop: advancing the accumulator with entry `i`
/// extends the merged prefix by that entry.
proof fn lemma_merge_advance_step(
    a: Map<PersistentId, Token>,
    s: Seq<(PersistentId, Token)>,
    i: int,
    acc: Map<PersistentId, Token>,
)
    requires
        distinct_keys(s),
        0 <= i < s.len(),
        acc == merged(a, entries_map(s.take(i))),
    ensures
        advanced(acc, s[i].0, s[i].1) == merged(a, entries_map(s.take(i + 1))),
{
    let id = s[i].0;
    let token = s[i].1;
    let prefix = entries_map(s.take(i));
    assert(s.take(i + 1).drop_last() =~= s.take(i));
    assert(entries_map(s.take(i + 1)) == prefix.insert(id, token));
    lemma_entries_map_dom(s.take(i));
    assert forall|j: int| 0 <= j < i implies (#[trigger] s.take(i)[j]).0 != id by {
        assert(s.take(i)[j] == s[j]);
    }
    assert(!prefix.dom().contains(id));
    assert(advanced(acc, id, token) =~= merged(a, prefix.insert(id, token)));
}

/// Merging is commutative: the pointwise join does not depend on the order
/// of its two inputs.
pub proof fn lemma_merge_commutative(a: Map<PersistentId, Token>, b: Map<PersistentId, Token>)
    ensures
        merged(a, b) == merged(b, a),
{
    assert(merged(a, b) =~= merged(b, a));
}

/// Merging is associative: joining three frontiers gives the same result
/// however the joins are grouped.
pub proof fn lemma_merge_associative(
    a: Map<PersistentId, Token>,
    b: Map<PersistentId, Token>,
    c: Map<PersistentId, Token>,
)
    ensures
        merged(merged(a, b), c) == merged(a, merged(b, c)),
{
    assert(merged(merged(a, b), c) =~= merged(a, merged(b, c)));
}

/// Merging is idempotent: joining a frontier with itself changes nothing.
pub proof fn lemma_merge_idempotent(a: Map<PersistentId, Token>)
    ensures
        merged(a, a) == a,
{
    assert(merged(a, a) =~= a);
}

/// A merged frontier dominates both inputs on every identifier: a published
/// entry's token never decreases under merge.
pub proof fn lemma_merge_dominates(a: Map<PersistentId, Token>, b: Map<PersistentId, Token>)
    ensures
        forall|id: PersistentId|
            a.dom().contains(id) ==> merged(a, b).dom().contains(id) && a[id] <= merged(a, b)[id],
        forall|id: PersistentId|
            b.dom().contains(id) ==> merged(a, b).dom().contains(id) && b[id] <= merged(a, b)[id],
{
}

/// A single progress report is the join with a one-entry frontier.
pub proof fn lemma_advance_is_join(m: Map<PersistentId, Token>, id: PersistentId, token: Token)
    ensures
        advanced(m, id, token) == merged(m, Map::<PersistentId, Token>::empty().insert(id, token)),
{
    assert(advanced(m, id, token) =~= merged(
        m,
        Map::<PersistentId, Token>::empty().insert(id, token),
    ));
}

/// Two progress reports commute: an interleaving of `advance` calls reaches
/// the same frontier whichever report is applied first.
pub proof fn lemma_advance_commutes(
    m: Map<PersistentId, Token>,
    id1: PersistentId,
    t1: Token,
    id2: PersistentId,
    t2: Token,
)
    ensures
        advanced(advanced(m, id1, t1), id2, t2) == advanced(advanced(m, id2, t2), id1, t1),
{
    assert(advanced(advanced(m, id1, t1), id2, t2) =~= advanced(advanced(m, id2, t2), id1, t1));
}

/// The frontier denoted by a sequence of progress reports, applied in order.
pub open spec fn advanced_all(
    m: Map<PersistentId, Token>,
    reports: Seq<(PersistentId, Token)>,
) -> Map<PersistentId, Token>
    decreases reports.len(),
{
    if reports.len() == 0 {
        m
    } else {
        advanced(advanced_all(m, reports.drop_last()), reports.last().0, reports.last().1)
    }
}

/// The join of a sequence of progress reports, taken on its own.
pub open spec fn joined(reports: Seq<(PersistentId, Token)>) -> Map<PersistentId, Token>
    decreases reports.len(),
{
    if reports.len() == 0 {
        Map::empty()
    } else {
        merged(
            joined(reports.drop_last()),
            Map::<PersistentId, Token>::empty().insert(reports.last().0, reports.last().1),
        )
    }
}

/// Per identifier, the join of a report sequence is exactly the largest
/// token among the reports that carry that identifier: it is defined when
/// some report carries the identifier, dominates every such report, and is
/// attained by one of them.
pub proof fn lemma_joined_per_identifier(reports: Seq<(PersistentId, Token)>, id: PersistentId)
    ensures
        joined(reports).dom().contains(id) == exists|i: int|
            0 <= i < reports.len() && (#[trigger] reports[i]).0 == id,
        joined(reports).dom().contains(id) ==> forall|i: int|
            0 <= i < reports.len() && (#[trigger] reports[i]).0 == id ==> reports[i].1 <= joined(
                reports,
            )[id],
        joined(reports).dom().contains(id) ==> exists|i: int|
            0 <= i < reports.len() && (#[trigger] reports[i]).0 == id && reports[i].1 == joined(
                reports,
            )[id],
    decreases reports.len(),
{
    if reports.len() > 0 {
        let rest = reports.drop_last();
        let last = reports.last();
        lemma_joined_per_identifier(rest, id);
        assert(forall|i: int| 0 <= i < rest.len() ==> rest[i] == reports[i]);
        if last.0 == id {
            assert(joined(reports).dom().contains(id));
            assert((reports[reports.len() - 1]).0 == id);
            if rest.len() > 0 && joined(rest).dom().contains(id) {
                assert(joined(reports)[id] == token_join(joined(rest)[id], last.1));
                let w = choose|i: int|
                    0 <= i < rest.len() && (#[trigger] rest[i]).0 == id && rest[i].1 == joined(
                        rest,
                    )[id];
                if joined(rest)[id] < last.1 {
                    assert((reports[reports.len() - 1]).1 == joined(reports)[id]);
                } else {
                    assert((reports[w]).0 == id && (reports[w]).1 == joined(reports)[id]);
                }
            } else {
                assert(joined(reports)[id] == last.1);
                assert((reports[reports.len() - 1]).1 == joined(reports)[id]);
            }
        } else {
            assert(joined(reports).dom().contains(id) == joined(rest).dom().contains(id));
            if joined(rest).dom().contains(id) {
                assert(joined(reports)[id] == joined(rest)[id]);
                let w = choose|i: int|
                    0 <= i < rest.len() && (#[trigger] rest[i]).0 == id && rest[i].1 == joined(
                        rest,
                    )[id];
                assert((reports[w]).0 == id && (reports[w]).1 == joined(reports)[id]);
            } else {
                assert forall|i: int|
                    0 <= i < reports.len() && (#[trigger] reports[i]).0 == id implies false by {
                    assert(i < reports.len() - 1);
                    assert(rest[i].0 == id);
                }
            }
        }
    }
}

/// Applying any sequence of progress reports to a frontier yields the join
/// of the frontier with the join of all the reports: the final token per
/// identifier is the join of all dominating tokens applied, whatever the
/// order of the calls.
pub proof fn lemma_advance_all_is_join(
    m: Map<PersistentId, Token>,
    reports: Seq<(PersistentId, Token)>,
)
    ensures
        advanced_all(m, reports) == merged(m, joined(reports)),
    decreases reports.len(),
{
    if reports.len() == 0 {
        assert(advanced_all(m, reports) =~= merged(m, joined(reports)));
    } else {
        let rest = reports.drop_last();
        let id = reports.last().0;
        let token = reports.last().1;
        lemma_advance_all_is_join(m, rest);
        lemma_advance_is_join(merged(m, joined(rest)), id, token);
        lemma_merge_associative(
            m,
            joined(rest),
            Map::<PersistentId, Token>::empty().insert(id, token),
        );
    }
}

} // verus!
