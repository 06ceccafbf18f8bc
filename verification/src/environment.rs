//! Scoped name resolution: a mapping from identifier names to runtime
//! values, plus an optional outer environment forming a singly linked scope
//! chain.
//!
//! The model of an environment is the sequence of its frames' maps,
//! innermost first.  Lookup consults the innermost frame first and walks
//! outward; `add` always binds in the innermost frame, so it can shadow but
//! never mutate an outer binding.

use vstd::prelude::*;

use crate::evaluator::{Value, ValueV};
use crate::text::str_eq;

verus! {

/// A scope chain: local bindings plus an optional outer environment.
#[derive(Debug)]
pub struct Environment {
    data: Vec<(String, Value)>,
    outer: Option<Box<Environment>>,
}

/// The map a frame's binding list denotes; a later binding for the same
/// name overrides an earlier one.
pub open spec fn frame_map(s: Seq<(String, Value)>) -> Map<Seq<char>, ValueV>
    decreases s.len(),
{
    if s.len() == 0 {
        Map::empty()
    } else {
        frame_map(s.drop_last()).insert(s.last().0@, s.last().1@)
    }
}

/// `frame_map` extended with further bindings, in order.
pub open spec fn map_insert_pairs(
    m: Map<Seq<char>, ValueV>,
    s: Seq<(String, Value)>,
) -> Map<Seq<char>, ValueV>
    decreases s.len(),
{
    if s.len() == 0 {
        m
    } else {
        map_insert_pairs(m, s.drop_last()).insert(s.last().0@, s.last().1@)
    }
}

/// The frames of the scope chain, innermost first.
pub closed spec fn env_view(e: Environment) -> Seq<Map<Seq<char>, ValueV>>
    decreases e,
{
    match e.outer {
        None => seq![frame_map(e.data@)],
        Some(o) => seq![frame_map(e.data@)] + env_view(*o),
    }
}

impl View for Environment {
    type V = Seq<Map<Seq<char>, ValueV>>;

    open spec fn view(&self) -> Seq<Map<Seq<char>, ValueV>> {
        env_view(*self)
    }
}

/// Chain lookup: the innermost frame that binds `name` decides.
pub open spec fn lookup(env: Seq<Map<Seq<char>, ValueV>>, name: Seq<char>) -> Option<ValueV>
    decreases env.len(),
{
    if env.len() == 0 {
        None
    } else if env[0].contains_key(name) {
        Some(env[0][name])
    } else {
        lookup(env.drop_first(), name)
    }
}

/// The environment after binding `name` in the innermost frame.
pub open spec fn env_define(
    env: Seq<Map<Seq<char>, ValueV>>,
    name: Seq<char>,
    v: ValueV,
) -> Seq<Map<Seq<char>, ValueV>> {
    env.update(0, env[0].insert(name, v))
}

/// A binding list whose entries all miss `name` leaves it out of the map.
proof fn lemma_frame_map_none(s: Seq<(String, Value)>, name: Seq<char>)
    requires
        forall|j: int| 0 <= j < s.len() ==> s[j].0@ != name,
    ensures
        !frame_map(s).contains_key(name),
    decreases s.len(),
{
    if s.len() > 0 {
        lemma_frame_map_none(s.drop_last(), name);
    }
}

/// The last binding for a name decides its value in the frame's map.
proof fn lemma_frame_map_get(s: Seq<(String, Value)>, j: int)
    requires
        0 <= j < s.len(),
        forall|l: int| j < l < s.len() ==> s[l].0@ != s[j].0@,
    ensures
        frame_map(s).contains_key(s[j].0@),
        frame_map(s)[s[j].0@] == s[j].1@,
    decreases s.len(),
{
    if j == s.len() - 1 {
    } else {
        lemma_frame_map_get(s.drop_last(), j);
    }
}

/// Appending binding lists inserts the second list's bindings in order.
proof fn lemma_frame_map_concat(a: Seq<(String, Value)>, b: Seq<(String, Value)>)
    ensures
        frame_map(a + b) == map_insert_pairs(frame_map(a), b),
    decreases b.len(),
{
    if b.len() == 0 {
        assert(a + b =~= a);
    } else {
        lemma_frame_map_concat(a, b.drop_last());
        assert((a + b).drop_last() =~= a + b.drop_last());
        assert((a + b).last() == b.last());
    }
}

/// A scope chain always holds at least its innermost frame.
pub proof fn lemma_env_view_len(e: &Environment)
    ensures
        e@.len() >= 1,
{
}

impl Environment {
    /// An environment from an initial binding list and an optional outer
    /// environment.
    pub fn new(data: Vec<(String, Value)>, outer: Option<Box<Environment>>) -> (r: Self)
        ensures
            r@ == seq![frame_map(data@)] + (match outer {
                None => Seq::<Map<Seq<char>, ValueV>>::empty(),
                Some(o) => o@,
            }),
    {
        let r = Self { data, outer };
        proof {
            match r.outer {
                None => {
                    assert(r@ =~= seq![frame_map(r.data@)]
                        + Seq::<Map<Seq<char>, ValueV>>::empty());
                },
                Some(_) => {},
            }
        }
        r
    }

    /// Binds `var` to `value` in the innermost frame, inserting or
    /// overwriting; outer frames are never touched.
    pub fn add(&mut self, var: String, value: Value)
        ensures
            final(self)@ == env_define(old(self)@, var@, value@),
    {
        let ghost old_data = self.data@;
        proof {
            assert(self@[0] == frame_map(self.data@));
        }
        self.data.push((var, value));
        proof {
            assert(self.data@.drop_last() =~= old_data);
            assert(frame_map(self.data@) == frame_map(old_data).insert(var@, value@));
            assert(self@ =~= env_define(old(self)@, var@, value@));
        }
    }

    /// Adds every binding of `other` to the innermost frame, in order.
    pub fn extend(&mut self, other: Vec<(String, Value)>)
        ensures
            final(self)@ == old(self)@.update(0, map_insert_pairs(old(self)@[0], other@)),
    {
        let ghost old_data = self.data@;
        let ghost pairs = other@;
        let mut other = other;
        self.data.append(&mut other);
        proof {
            lemma_frame_map_concat(old_data, pairs);
            assert(self@ =~= old(self)@.update(
                0,
                map_insert_pairs(old(self)@[0], pairs),
            ));
        }
    }

    /// Resolves `var` through the scope chain: the local frame first, then
    /// outward until a binding is found or the chain is exhausted.
    pub fn get(&self, var: &str) -> (r: Option<&Value>)
        ensures
            match lookup(self@, var@) {
                Some(v) => match r {
                    Some(found) => found@ == v,
                    None => false,
                },
                None => r is None,
            },
        decreases self,
    {
        let n = self.data.len();
        let mut i: usize = n;
        #[verifier::loop_isolation(false)]
        while i > 0
            invariant
                i <= n,
                forall|j: int| i <= j < n ==> self.data@[j].0@ != var@,
            decreases i,
        {
            let entry = &self.data[i - 1];
            if str_eq(entry.0.as_str(), var) {
                proof {
                    lemma_frame_map_get(self.data@, i - 1 as int);
                }
                return Some(&entry.1);
            }
            i = i - 1;
        }
        proof {
            lemma_frame_map_none(self.data@, var@);
        }
        proof {
            assert(self@[0] == frame_map(self.data@));
            assert(!self@[0].contains_key(var@));
        }
        match &self.outer {
            Some(o) => {
                proof {
                    assert(self@.drop_first() =~= o@);
                    assert(lookup(self@, var@) == lookup(o@, var@));
                }
                o.get(var)
            },
            None => {
                proof {
                    assert(self@.len() == 1);
                    assert(self@.drop_first() =~= Seq::<Map<Seq<char>, ValueV>>::empty());
                    assert(lookup(self@.drop_first(), var@) is None);
                    assert(lookup(self@, var@) is None);
                }
                None
            },
        }
    }

    /// Pushes a fresh innermost frame holding `data`, linking the current
    /// environment outward; the receiver becomes the child environment.
    pub fn enter_frame(&mut self, data: Vec<(String, Value)>)
        ensures
            final(self)@ == seq![frame_map(data@)] + old(self)@,
    {
        let mut child = Environment { data, outer: None };
        core::mem::swap(self, &mut child);
        // `self` now holds the new frame and `child` the previous chain
        let ghost frame = self.data@;
        self.outer = Some(Box::new(child));
        proof {
            assert(self@ =~= seq![frame_map(frame)] + old(self)@);
        }
    }

    /// Discards the innermost frame, restoring the outer environment.
    pub fn exit_frame(&mut self)
        requires
            old(self)@.len() > 1,
        ensures
            final(self)@ == old(self)@.drop_first(),
    {
        let mut tmp = Environment { data: Vec::new(), outer: None };
        core::mem::swap(self, &mut tmp);
        match tmp.outer {
            Some(o) => {
                *self = *o;
                proof {
                    assert(self@ =~= old(self)@.drop_first());
                }
            },
            None => {
                proof {
                    // the chain had more than one frame, so an outer
                    // environment exists
                    assert(false);
                }
            },
        }
    }
}

impl Default for Environment {
    /// The root environment: one empty frame, no outer chain.
    fn default() -> (r: Self)
        ensures
            r@ == seq![Map::<Seq<char>, ValueV>::empty()],
    {
        let r = Environment { data: Vec::new(), outer: None };
        proof {
            assert(r.data@.len() == 0);
            assert(r@ =~= seq![Map::<Seq<char>, ValueV>::empty()]);
        }
        r
    }
}

} // verus!
