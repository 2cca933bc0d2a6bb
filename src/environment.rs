use crate::value::{Value, ValueModel};
use vstd::prelude::*;

verus! {

/// One scope: its bindings in the order they were made, and its parent.
#[derive(Debug)]
pub struct Frame {
    bindings: Vec<(String, Value)>,
    parent: Option<usize>,
}

/// A scope as the contracts see it.
pub ghost struct FrameModel {
    pub bindings: Seq<(Seq<char>, ValueModel)>,
    pub parent: Option<nat>,
}

impl View for Frame {
    type V = FrameModel;

    closed spec fn view(&self) -> FrameModel {
        FrameModel {
            bindings: self.bindings@.map_values(|b: (String, Value)| (b.0@, b.1@)),
            parent: match self.parent {
                Some(p) => Some(p as nat),
                None => None,
            },
        }
    }
}

/// The arena of every scope made while a program runs. A scope is named by
/// its index; scope 0 is the root. Closures refer to scopes by index, so a
/// scope lives as long as the arena.
#[derive(Debug)]
pub struct Environment {
    frames: Vec<Frame>,
}

/// The value bound to `key` in a list of bindings: the latest binding wins.
pub open spec fn local_lookup(bindings: Seq<(Seq<char>, ValueModel)>, key: Seq<char>) -> Option<
    ValueModel,
>
    decreases bindings.len(),
{
    if bindings.len() == 0 {
        None
    } else if bindings.last().0 == key {
        Some(bindings.last().1)
    } else {
        local_lookup(bindings.drop_last(), key)
    }
}

/// Looking `key` up from scope `frame` outwards: the first scope on the
/// parent chain that binds it decides. A parent link always points to an
/// older scope.
pub open spec fn lookup(frames: Seq<FrameModel>, frame: nat, key: Seq<char>) -> Option<ValueModel>
    decreases frame,
{
    if frame >= frames.len() {
        None
    } else {
        match local_lookup(frames[frame as int].bindings, key) {
            Some(v) => Some(v),
            None => match frames[frame as int].parent {
                Some(p) => if p < frame {
                    lookup(frames, p, key)
                } else {
                    None
                },
                None => None,
            },
        }
    }
}

/// Binding `key` to `value` in scope `frame` only (never in an ancestor).
pub open spec fn bind(frames: Seq<FrameModel>, frame: nat, key: Seq<char>, value: ValueModel) -> Seq<
    FrameModel,
> {
    if frame < frames.len() {
        frames.update(
            frame as int,
            FrameModel {
                bindings: frames[frame as int].bindings.push((key, value)),
                parent: frames[frame as int].parent,
            },
        )
    } else {
        frames
    }
}

/// A new empty scope whose parent is `parent`, at index `frames.len()`.
pub open spec fn new_scope(frames: Seq<FrameModel>, parent: nat) -> Seq<FrameModel> {
    frames.push(
        FrameModel {
            bindings: Seq::empty(),
            parent: if parent < frames.len() {
                Some(parent)
            } else {
                None
            },
        },
    )
}

impl View for Environment {
    type V = Seq<FrameModel>;

    closed spec fn view(&self) -> Seq<FrameModel> {
        self.frames@.map_values(|f: Frame| f@)
    }
}

impl Environment {
    /// An arena holding only the root scope.
    pub fn new() -> (r: Environment)
        ensures
            r@ == seq![FrameModel { bindings: Seq::empty(), parent: None }],
    {
        let mut frames: Vec<Frame> = Vec::new();
        frames.push(Frame { bindings: Vec::new(), parent: None });
        let r = Environment { frames };
        proof {
            assert(r.frames@[0]@.bindings =~= Seq::empty());
            assert(r@ =~= seq![FrameModel { bindings: Seq::empty(), parent: None }]);
        }
        r
    }

    /// The number of scopes.
    pub fn len(&self) -> (r: usize)
        ensures
            r == self@.len(),
    {
        self.frames.len()
    }

    /// Makes a new scope, child of `parent`, and returns its index.
    pub fn with_parent(&mut self, parent: usize) -> (r: usize)
        ensures
            r == old(self)@.len(),
            final(self)@ == new_scope(old(self)@, parent as nat),
    {
        let r = self.frames.len();
        let p = if parent < r {
            Some(parent)
        } else {
            None
        };
        self.frames.push(Frame { bindings: Vec::new(), parent: p });
        proof {
            assert(self.frames@[r as int]@.bindings =~= Seq::<(Seq<char>, ValueModel)>::empty());
            assert(self@ =~= new_scope(old(self)@, parent as nat));
        }
        r
    }

    /// The value that `key` resolves to from scope `frame`.
    pub fn get(&self, frame: usize, key: &String) -> (r: Option<Value>)
        ensures
            match r {
                Some(v) => lookup(self@, frame as nat, key@) == Some(v@),
                None => lookup(self@, frame as nat, key@) is None,
            },
    {
        let mut cursor = frame;
        loop
            invariant
                lookup(self@, cursor as nat, key@) == lookup(self@, frame as nat, key@),
            decreases cursor,
        {
            if cursor >= self.frames.len() {
                return None;
            }
            let f = &self.frames[cursor];
            proof {
                assert(self@[cursor as int] == f@);
            }
            let mut j = f.bindings.len();
            proof {
                assert(f@.bindings.take(j as int) =~= f@.bindings);
            }
            while j > 0
                invariant
                    j <= f.bindings.len(),
                    cursor < self@.len(),
                    self@[cursor as int] == f@,
                    f@.bindings.len() == f.bindings@.len(),
                    lookup(self@, cursor as nat, key@) == lookup(self@, frame as nat, key@),
                    local_lookup(f@.bindings.take(j as int), key@) == local_lookup(
                        f@.bindings,
                        key@,
                    ),
                decreases j,
            {
                proof {
                    assert(f@.bindings.take(j as int).drop_last() =~= f@.bindings.take(j - 1));
                }
                if f.bindings[j - 1].0 == *key {
                    let v = f.bindings[j - 1].1.clone();
                    proof {
                        assert(f@.bindings[j - 1] == (f.bindings@[j - 1].0@, f.bindings@[j - 1].1@));
                        assert(f@.bindings.take(j as int).last() == f@.bindings[j - 1]);
                    }
                    return Some(v);
                }
                j = j - 1;
            }
            proof {
                assert(f@.bindings.take(0) =~= Seq::<(Seq<char>, ValueModel)>::empty());
            }
            match f.parent {
                Some(p) => {
                    if p < cursor {
                        cursor = p;
                    } else {
                        return None;
                    }
                },
                None => {
                    return None;
                },
            }
        }
    }

    /// Binds `key` to `value` in scope `frame` itself.
    pub fn set(&mut self, frame: usize, key: String, value: Value)
        ensures
            final(self)@ == bind(old(self)@, frame as nat, key@, value@),
    {
        if frame < self.frames.len() {
            let ghost k = key@;
            let ghost v = value@;
            let mut f = Frame { bindings: Vec::new(), parent: None };
            self.frames.set_and_swap(frame, &mut f);
            f.bindings.push((key, value));
            self.frames.set_and_swap(frame, &mut f);
            proof {
                let nf = FrameModel {
                    bindings: old(self)@[frame as int].bindings.push((k, v)),
                    parent: old(self)@[frame as int].parent,
                };
                assert(self.frames@[frame as int]@.bindings =~= nf.bindings);
                assert(self@ =~= bind(old(self)@, frame as nat, k, v));
            }
        }
    }
}

} // verus!
