//! Environments: an arena of frames.  Each frame has an optional parent,
//! always a frame made before it, so that chains of parents end.  Names are
//! bound in one flat list, each binding tagged with its frame; the latest
//! binding of a name in a frame is the one that counts.
use vstd::prelude::*;
use crate::object::{Object, Value};

verus! {

/// The mathematical form of an environment arena.
pub struct SpecEnv {
    /// Every binding made, oldest first: frame id, name, value.
    pub binds: Seq<(int, Seq<char>, Value)>,
    /// The parent of each frame.
    pub outers: Seq<Option<int>>,
}

/// The latest binding of `name` in frame `f` among the first `n` bindings.
pub open spec fn find_in_frame(binds: Seq<(int, Seq<char>, Value)>, f: int, name: Seq<char>, n: int) -> Option<Value>
    decreases n,
{
    if n <= 0 || n > binds.len() {
        None
    } else if binds[n - 1].0 == f && binds[n - 1].1 == name {
        Some(binds[n - 1].2)
    } else {
        find_in_frame(binds, f, name, n - 1)
    }
}

/// The value of `name` seen from frame `f`: its own binding, else its
/// parent's, and so on up the chain.
pub open spec fn lookup(env: SpecEnv, f: int, name: Seq<char>) -> Option<Value>
    decreases f,
{
    if !(0 <= f < env.outers.len()) {
        None
    } else {
        match find_in_frame(env.binds, f, name, env.binds.len() as int) {
            Some(v) => Some(v),
            None => match env.outers[f] {
                Some(o) => if 0 <= o < f {
                    lookup(env, o, name)
                } else {
                    None
                },
                None => None,
            },
        }
    }
}

/// `env` with `name` bound to `v` in frame `f`.
pub open spec fn bind(env: SpecEnv, f: int, name: Seq<char>, v: Value) -> SpecEnv {
    SpecEnv { binds: env.binds.push((f, name, v)), outers: env.outers }
}

/// `env` with one more frame, whose parent is `outer` where that frame exists.
pub open spec fn push_frame(env: SpecEnv, outer: int) -> SpecEnv {
    SpecEnv {
        binds: env.binds,
        outers: env.outers.push(
            if 0 <= outer < env.outers.len() {
                Some(outer)
            } else {
                None
            },
        ),
    }
}

/// The arena of frames.  Frame 0 is the root.
#[derive(Debug)]
pub struct Environment {
    binds: Vec<(usize, String, Object)>,
    outers: Vec<Option<usize>>,
}

impl View for Environment {
    type V = SpecEnv;

    closed spec fn view(&self) -> SpecEnv {
        SpecEnv {
            binds: self.binds@.map_values(|b: (usize, String, Object)| (b.0 as int, b.1@, b.2@)),
            outers: self.outers@.map_values(
                |o: Option<usize>|
                    match o {
                        Some(x) => Some(x as int),
                        None => None,
                    },
            ),
        }
    }
}

impl Environment {
    pub closed spec fn wf(&self) -> bool {
        &&& self.outers@.len() >= 1
        &&& forall|f: int|
            0 <= f < self.outers@.len() ==> match #[trigger] self.outers@[f] {
                Some(o) => o < f,
                None => true,
            }
    }

    /// An arena holding only an empty root frame.
    pub fn new() -> (r: Environment)
        ensures
            r.wf(),
            r@.binds == Seq::<(int, Seq<char>, Value)>::empty(),
            r@.outers == seq![Option::<int>::None],
    {
        let mut outers: Vec<Option<usize>> = Vec::new();
        outers.push(None);
        let r = Environment { binds: Vec::new(), outers };
        assert(r@.binds =~= Seq::<(int, Seq<char>, Value)>::empty());
        assert(r@.outers =~= seq![Option::<int>::None]);
        r
    }


    /// The value bound to `name` in the root frame.
    pub fn get(&self, name: String) -> (r: Option<Object>)
        requires
            self.wf(),
        ensures
            match r {
                Some(o) => lookup(self@, 0, name@) == Some(o@),
                None => lookup(self@, 0, name@) is None,
            },
    {
        self.lookup(0, &name)
    }

    /// Binds `name` to a copy of `val` in the root frame.
    pub fn set(&mut self, name: String, val: &Object)
        requires
            old(self).wf(),
        ensures
            final(self).wf(),
            final(self)@ == bind(old(self)@, 0, name@, val@),
    {
        self.bind(0, name, val.copy());
    }

    /// The value of `name` seen from frame `f`.
    pub fn lookup(&self, f: usize, name: &String) -> (r: Option<Object>)
        requires
            self.wf(),
        ensures
            match r {
                Some(o) => lookup(self@, f as int, name@) == Some(o@),
                None => lookup(self@, f as int, name@) is None,
            },
    {
        let mut g: usize = f;
        while g < self.outers.len()
            invariant
                self.wf(),
                lookup(self@, g as int, name@) == lookup(self@, f as int, name@),
            decreases g,
        {
            let mut i: usize = self.binds.len();
            while i > 0
                invariant
                    self.wf(),
                    g < self.outers@.len(),
                    lookup(self@, g as int, name@) == lookup(self@, f as int, name@),
                    i <= self.binds@.len(),
                    find_in_frame(self@.binds, g as int, name@, i as int) == find_in_frame(
                        self@.binds,
                        g as int,
                        name@,
                        self@.binds.len() as int,
                    ),
                decreases i,
            {
                let b = &self.binds[i - 1];
                assert(self@.binds[i - 1] == (b.0 as int, b.1@, b.2@));
                if b.0 == g && b.1.eq(name) {
                    return Some(b.2.copy());
                }
                i = i - 1;
            }
            assert(self@.outers[g as int] == match self.outers@[g as int] {
                Some(x) => Some(x as int),
                None => None,
            });
            match self.outers[g] {
                Some(o) => {
                    g = o;
                },
                None => return None,
            }
        }
        None
    }

    /// Binds `name` to `val` in frame `f`.
    pub fn bind(&mut self, f: usize, name: String, val: Object)
        requires
            old(self).wf(),
        ensures
            final(self).wf(),
            final(self)@ == bind(old(self)@, f as int, name@, val@),
    {
        let ghost nm = name@;
        let ghost v = val@;
        self.binds.push((f, name, val));
        assert(self@.binds =~= old(self)@.binds.push((f as int, nm, v)));
        assert(self@.outers =~= old(self)@.outers);
    }

    /// Adds a frame whose parent is `outer` and returns its id.
    pub fn new_frame(&mut self, outer: usize) -> (r: usize)
        requires
            old(self).wf(),
        ensures
            final(self).wf(),
            final(self)@ == push_frame(old(self)@, outer as int),
            r == old(self)@.outers.len(),
    {
        let id = self.outers.len();
        let o = if outer < id {
            Some(outer)
        } else {
            None
        };
        self.outers.push(o);
        assert(self@.outers =~= old(self)@.outers.push(
            if 0 <= outer < old(self)@.outers.len() { Some(outer as int) } else { None },
        ));
        assert(self@.binds =~= old(self)@.binds);
        id
    }
}

} // verus!
