//! Assembling native tool calls from streamed fragments. Each fragment names
//! the call it belongs to by index; the calls are kept in a map keyed by that
//! index and come out in increasing index order.
use vstd::prelude::*;

use std::collections::BTreeMap;
use vstd::std_specs::cmp::OrdSpec;
use vstd::std_specs::iter::IteratorSpec;

use crate::brain::{call_view, FunctionCall, ToolCall, ToolCallKind};
use crate::stream::{delta_view, DeltaCall};

verus! {

broadcast use vstd::std_specs::btree::group_btree_axioms, vstd::laws_cmp::group_laws_cmp;

/// A tool call being assembled.
#[derive(Debug)]
pub struct AccCall {
    pub id: String,
    pub name: String,
    pub args: String,
}

/// The view of a call being assembled: `(id, name, arguments)`.
pub open spec fn acc_view(c: AccCall) -> (Seq<char>, Seq<char>, Seq<char>) {
    (c.id@, c.name@, c.args@)
}

/// The view of the calls being assembled, by index.
pub open spec fn calls_map(m: Map<usize, AccCall>) -> Map<usize, (Seq<char>, Seq<char>, Seq<char>)> {
    m.map_values(|c: AccCall| acc_view(c))
}

/// A call that has received nothing yet.
pub open spec fn fresh() -> (Seq<char>, Seq<char>, Seq<char>) {
    (Seq::empty(), Seq::empty(), Seq::empty())
}

/// A fragment applied to a call: a non-empty id or name replaces the old one;
/// an arguments piece is appended.
pub open spec fn apply(
    e: (Seq<char>, Seq<char>, Seq<char>),
    d: (usize, Option<Seq<char>>, Option<Seq<char>>, Option<Seq<char>>),
) -> (Seq<char>, Seq<char>, Seq<char>) {
    (
        match d.1 {
            Some(id) if id.len() > 0 => id,
            _ => e.0,
        },
        match d.2 {
            Some(n) if n.len() > 0 => n,
            _ => e.1,
        },
        match d.3 {
            Some(a) => e.2 + a,
            None => e.2,
        },
    )
}

/// Merge a fragment: the call at its index is updated, or created.
pub open spec fn merge_spec(
    m: Map<usize, (Seq<char>, Seq<char>, Seq<char>)>,
    d: (usize, Option<Seq<char>>, Option<Seq<char>>, Option<Seq<char>>),
) -> Map<usize, (Seq<char>, Seq<char>, Seq<char>)> {
    m.insert(d.0, apply(if m.contains_key(d.0) { m[d.0] } else { fresh() }, d))
}

/// Merge fragments in order.
pub open spec fn merge_all(
    m: Map<usize, (Seq<char>, Seq<char>, Seq<char>)>,
    ds: Seq<(usize, Option<Seq<char>>, Option<Seq<char>>, Option<Seq<char>>)>,
) -> Map<usize, (Seq<char>, Seq<char>, Seq<char>)>
    decreases ds.len(),
{
    if ds.len() == 0 {
        m
    } else {
        merge_all(merge_spec(m, ds[0]), ds.skip(1))
    }
}

/// `ks` is strictly increasing.
pub open spec fn increasing(ks: Seq<usize>) -> bool {
    forall|i: int, j: int| 0 <= i < j < ks.len() ==> ks[i] < ks[j]
}

/// A finished call, viewed as `(id, name, arguments)`: a call that received no
/// arguments gets `{}`.
pub open spec fn finished_call(e: (Seq<char>, Seq<char>, Seq<char>)) -> (Seq<char>, Seq<char>, Seq<char>) {
    (e.0, e.1, if e.2.len() == 0 {
        "{}"@
    } else {
        e.2
    })
}

/// Keys that a map hands out in increasing order are strictly increasing.
proof fn lemma_increasing_keys(ks: Seq<usize>)
    requires
        vstd::std_specs::btree::increasing_seq(ks),
    ensures
        increasing(ks),
{
    assert forall|i: int, j: int| 0 <= i < j < ks.len() implies ks[i] < ks[j] by {
        assert(ks[i].cmp_spec(&ks[j]) is Less);
    }
}

/// The tool calls being assembled, by index.
#[derive(Debug)]
pub struct CallAssembly {
    pub calls: BTreeMap<usize, AccCall>,
}

impl CallAssembly {
    /// No call yet.
    pub fn new() -> (r: CallAssembly)
        ensures
            r.calls@ == Map::<usize, AccCall>::empty(),
    {
        CallAssembly { calls: BTreeMap::new() }
    }

    /// Merge one fragment.
    pub fn merge(&mut self, d: &DeltaCall)
        ensures
            calls_map(final(self).calls@) == merge_spec(calls_map(old(self).calls@), delta_view(*d)),
    {
        let ghost m0 = self.calls@;
        let base = match self.calls.remove(&d.index) {
            Some(c) => c,
            None => AccCall { id: String::new(), name: String::new(), args: String::new() },
        };
        proof {
            if m0.contains_key(d.index) {
                assert(acc_view(base) == calls_map(m0)[d.index]);
            } else {
                assert(acc_view(base) == fresh());
            }
        }
        let id = match &d.id {
            Some(s) => if s.as_str().is_empty() {
                base.id
            } else {
                s.clone()
            },
            None => base.id,
        };
        let name = match &d.name {
            Some(s) => if s.as_str().is_empty() {
                base.name
            } else {
                s.clone()
            },
            None => base.name,
        };
        let mut args = base.args;
        match &d.arguments {
            Some(a) => args.append(a.as_str()),
            None => {},
        }
        self.calls.insert(d.index, AccCall { id, name, args });
        proof {
            assert(calls_map(self.calls@) =~= merge_spec(calls_map(m0), delta_view(*d)));
        }
    }

    /// The assembled calls in increasing index order.
    pub fn finish(&self) -> (r: Vec<ToolCall>)
        ensures
            exists|ks: Seq<usize>|
                {
                    &&& increasing(ks)
                    &&& ks.len() == r@.len()
                    &&& forall|k: usize| self.calls@.contains_key(k) <==> ks.contains(k)
                    &&& forall|i: int|
                        0 <= i < r@.len() ==> #[trigger] call_view(r@[i]) == finished_call(calls_map(self.calls@)[ks[i]])
                },
    {
        let mut out: Vec<ToolCall> = Vec::new();
        let ghost mut ks: Seq<usize> = Seq::empty();
        let entries = self.calls.iter();
        let ghost full = entries.remaining();
        let ghost keys = full.map_values(|kv: (&usize, &AccCall)| *kv.0);
        assert(full == vstd::std_specs::btree::spec_btree_map_iter(&self.calls).remaining());
        for kv in it: entries
            invariant
                it.seq() == full,
                full == vstd::std_specs::btree::spec_btree_map_iter(&self.calls).remaining(),
                keys == full.map_values(|kv: (&usize, &AccCall)| *kv.0),
                out@.len() == it.index(),
                ks == keys.take(it.index()),
                forall|i: int|
                    0 <= i < out@.len() ==> #[trigger] call_view(out@[i]) == finished_call(
                        calls_map(self.calls@)[ks[i]],
                    ),
        {
            let (k, c) = kv;
            proof {
                assert(kv == full[it.index()]);
                assert(self.calls@.contains_key(*full[it.index()].0) && self.calls@[*full[it.index()].0] == *full[it.index()].1);
                assert(calls_map(self.calls@)[*k] == acc_view(*c));
            }
            let arguments = if c.args.as_str().is_empty() {
                String::from_str("{}")
            } else {
                c.args.clone()
            };
            out.push(ToolCall {
                id: c.id.clone(),
                kind: ToolCallKind::Function,
                function: FunctionCall { name: c.name.clone(), arguments },
            });
            proof {
                assert(keys.take(it.index() + 1) == keys.take(it.index()).push(*k));
                ks = ks.push(*k);
            }
        }
        proof {
            assert(ks == keys);
            lemma_increasing_keys(ks);
            assert forall|k: usize| self.calls@.contains_key(k) <==> ks.contains(k) by {
                if self.calls@.contains_key(k) {
                    assert(full.contains((&k, &self.calls@[k])));
                    let i = choose|i: int| 0 <= i < full.len() && full[i] == (&k, &self.calls@[k]);
                    assert(ks[i] == k);
                }
                if ks.contains(k) {
                    let i = choose|i: int| 0 <= i < ks.len() && ks[i] == k;
                    assert(self.calls@.contains_key(*full[i].0));
                }
            }
        }
        out
    }
}

/// Tool calls are assembled by index: after any fragments, in any order, there
/// is a call for exactly the indices that had one before or that some fragment
/// named; no call appears from nowhere and none is lost.
pub proof fn lemma_calls_assemble_by_index(
    m: Map<usize, (Seq<char>, Seq<char>, Seq<char>)>,
    ds: Seq<(usize, Option<Seq<char>>, Option<Seq<char>>, Option<Seq<char>>)>,
)
    ensures
        forall|k: usize|
            #[trigger] merge_all(m, ds).contains_key(k) <==> (m.contains_key(k) || exists|i: int|
                0 <= i < ds.len() && ds[i].0 == k),
    decreases ds.len(),
{
    if ds.len() > 0 {
        let m1 = merge_spec(m, ds[0]);
        let rest = ds.skip(1);
        lemma_calls_assemble_by_index(m1, rest);
        assert(merge_all(m, ds) == merge_all(m1, rest));
        assert forall|k: usize| m1.contains_key(k) <==> (m.contains_key(k) || k == ds[0].0) by {}
        assert forall|k: usize|
            #[trigger] merge_all(m, ds).contains_key(k) <==> (m.contains_key(k) || exists|i: int|
                0 <= i < ds.len() && ds[i].0 == k) by {
            if exists|i: int| 0 <= i < rest.len() && rest[i].0 == k {
                let i = choose|i: int| 0 <= i < rest.len() && rest[i].0 == k;
                assert(ds[i + 1] == rest[i]);
            }
            if exists|i: int| 0 <= i < ds.len() && ds[i].0 == k {
                let i = choose|i: int| 0 <= i < ds.len() && ds[i].0 == k;
                if i > 0 {
                    assert(rest[i - 1] == ds[i]);
                }
            }
        }
    }
}

} // verus!
