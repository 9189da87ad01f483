//! The environment chain: scope frames, each with its variables and with
//! the frame that encloses it.
//!
//! The frames live in one table and are named by their place in it, so
//! that a closure and the block that declared it can share a frame. A
//! frame is always added after the frame that encloses it, hence no chain
//! runs in a circle, and every chain ends in a frame that nothing encloses.

use vstd::prelude::*;
use crate::bindings::Bindings;
use crate::error::RuntimeError;
use crate::literal::LiteralValue;
use crate::token::Token;

verus! {

/// One scope frame.
pub struct EnvironmentImpl {
    pub values: Bindings,
    /// The handle of the enclosing frame.
    pub enclosing: Option<usize>,
}

/// What a frame holds.
pub struct Frame {
    pub vars: Map<usize, LiteralValue>,
    pub enclosing: Option<usize>,
}

impl View for EnvironmentImpl {
    type V = Frame;

    open spec fn view(&self) -> Frame {
        Frame { vars: self.values@, enclosing: self.enclosing }
    }
}

impl EnvironmentImpl {
    /// An empty frame that nothing encloses.
    pub fn new() -> (r: EnvironmentImpl)
        ensures
            r.values.wf(),
            r@ == (Frame { vars: Map::empty(), enclosing: None }),
    {
        EnvironmentImpl { values: Bindings::new(), enclosing: None }
    }

    /// An empty frame inside the frame `parent`.
    pub fn nested(parent: usize) -> (r: EnvironmentImpl)
        ensures
            r.values.wf(),
            r@ == (Frame { vars: Map::empty(), enclosing: Some(parent) }),
    {
        EnvironmentImpl { values: Bindings::new(), enclosing: Some(parent) }
    }
}

/// The frame reached from `env` by `distance` steps outward, if the chain
/// is that long.
pub open spec fn ancestor_of(frames: Seq<Frame>, env: int, distance: nat) -> Option<int>
    decreases distance,
{
    if !(0 <= env < frames.len()) {
        None
    } else if distance == 0 {
        Some(env)
    } else {
        match frames[env].enclosing {
            Some(parent) => ancestor_of(frames, parent as int, (distance - 1) as nat),
            None => None,
        }
    }
}

/// The nearest frame from `env` outward that binds the name.
pub open spec fn binder_of(frames: Seq<Frame>, env: int, name: usize) -> Option<int>
    decreases env,
{
    if !(0 <= env < frames.len()) {
        None
    } else if frames[env].vars.contains_key(name) {
        Some(env)
    } else {
        match frames[env].enclosing {
            Some(parent) => if parent < env {
                binder_of(frames, parent as int, name)
            } else {
                None
            },
            None => None,
        }
    }
}

/// The frames with `value` bound to `name` in the frame `env`.
pub open spec fn bound(frames: Seq<Frame>, env: int, name: usize, value: LiteralValue) -> Seq<
    Frame,
> {
    frames.update(env, Frame { vars: frames[env].vars.insert(name, value), ..frames[env] })
}

/// The value of the name as seen from `env`: that of the nearest frame
/// outward that binds it.
pub open spec fn value_of(frames: Seq<Frame>, env: int, name: usize) -> Option<LiteralValue> {
    match binder_of(frames, env, name) {
        Some(at) => Some(frames[at].vars[name]),
        None => None,
    }
}

/// The value of the name in the frame `distance` steps out from `env`, and
/// in no other.
pub open spec fn value_at(frames: Seq<Frame>, env: int, distance: nat, name: usize) -> Option<
    LiteralValue,
> {
    match ancestor_of(frames, env, distance) {
        Some(at) => frames[at].vars.get(name),
        None => None,
    }
}

/// All the frames.
pub struct Environments {
    pub frames: Vec<EnvironmentImpl>,
}

impl View for Environments {
    type V = Seq<Frame>;

    open spec fn view(&self) -> Seq<Frame> {
        Seq::new(self.frames@.len(), |i: int| self.frames@[i]@)
    }
}

/// What tells that the chain is shorter than resolution promised.
pub open spec fn misaligned() -> RuntimeError {
    RuntimeError::EnvironmentError("Environment stacks misaligned")
}

impl Environments {
    /// Every frame is enclosed by an earlier one or by none.
    pub open spec fn wf(&self) -> bool {
        &&& forall|i: int| 0 <= i < self.frames@.len() ==> (#[trigger] self.frames@[i]).values.wf()
        &&& forall|i: int|
            0 <= i < self.frames@.len() ==> match (#[trigger] self.frames@[i]).enclosing {
                Some(parent) => parent < i,
                None => true,
            }
    }

    /// No frames.
    pub fn new() -> (r: Environments)
        ensures
            r.wf(),
            r@.len() == 0,
    {
        Environments { frames: Vec::new() }
    }

    /// How many frames there are.
    pub fn len(&self) -> (n: usize)
        ensures
            n == self@.len(),
    {
        self.frames.len()
    }

    /// Adds an empty frame, inside the frame `parent` if one is given, and
    /// returns its handle. A parent that is no frame is refused.
    pub fn add(&mut self, parent: Option<usize>) -> (r: Result<usize, RuntimeError>)
        requires
            old(self).wf(),
        ensures
            final(self).wf(),
            match parent {
                Some(p) if p >= old(self)@.len() => r == Err::<usize, RuntimeError>(misaligned())
                    && final(self)@ == old(self)@,
                _ => r == Ok::<usize, RuntimeError>(old(self)@.len() as usize) && final(self)@
                    == old(self)@.push(Frame { vars: Map::empty(), enclosing: parent }),
            },
            old(self)@.len() <= usize::MAX,
    {
        let frame = match parent {
            Some(p) => {
                if p >= self.frames.len() {
                    return Err(RuntimeError::EnvironmentError("Environment stacks misaligned"));
                }
                EnvironmentImpl::nested(p)
            },
            None => EnvironmentImpl::new(),
        };
        let handle = self.frames.len();
        self.frames.push(frame);
        assert(self@ =~= old(self)@.push(Frame { vars: Map::empty(), enclosing: parent }));
        Ok(handle)
    }

    /// The frame `distance` steps out from `env`.
    pub fn ancestor(&self, env: usize, distance: usize) -> (r: Option<usize>)
        requires
            self.wf(),
        ensures
            match r {
                Some(at) => ancestor_of(self@, env as int, distance as nat) == Some(at as int)
                    && at < self@.len(),
                None => ancestor_of(self@, env as int, distance as nat) is None,
            },
    {
        let mut at = env;
        let mut left = distance;
        loop
            invariant
                self.wf(),
                ancestor_of(self@, at as int, left as nat) == ancestor_of(
                    self@,
                    env as int,
                    distance as nat,
                ),
            decreases left,
        {
            if at >= self.frames.len() {
                return None;
            }
            if left == 0 {
                return Some(at);
            }
            match self.frames[at].enclosing {
                Some(parent) => {
                    at = parent;
                    left -= 1;
                },
                None => {
                    return None;
                },
            }
        }
    }

    /// The nearest frame from `env` outward that binds the name.
    pub fn binder(&self, env: usize, name: usize) -> (r: Option<usize>)
        requires
            self.wf(),
        ensures
            match r {
                Some(at) => binder_of(self@, env as int, name) == Some(at as int) && at
                    < self@.len() && self@[at as int].vars.contains_key(name),
                None => binder_of(self@, env as int, name) is None,
            },
    {
        let mut at = env;
        loop
            invariant
                self.wf(),
                binder_of(self@, at as int, name) == binder_of(self@, env as int, name),
            decreases at,
        {
            if at >= self.frames.len() {
                return None;
            }
            if self.frames[at].values.get(name).is_some() {
                return Some(at);
            }
            match self.frames[at].enclosing {
                Some(parent) => {
                    at = parent;
                },
                None => {
                    return None;
                },
            }
        }
    }

    /// Binds the name in the frame `env` itself, never in an enclosing
    /// one: a variable of an inner scope may shadow one of an outer scope.
    pub fn define(&mut self, env: usize, name: usize, value: LiteralValue) -> (r: Result<
        (),
        RuntimeError,
    >)
        requires
            old(self).wf(),
        ensures
            final(self).wf(),
            env < old(self)@.len() ==> r is Ok && final(self)@ == bound(
                old(self)@,
                env as int,
                name,
                value,
            ),
            env >= old(self)@.len() ==> r == Err::<(), RuntimeError>(misaligned()) && final(self)@
                == old(self)@,
    {
        if env >= self.frames.len() {
            return Err(RuntimeError::EnvironmentError("Environment stacks misaligned"));
        }
        self.bind(env, name, value);
        Ok(())
    }

    /// As `define`, in a frame that is known to exist.
    pub fn bind(&mut self, env: usize, name: usize, value: LiteralValue)
        requires
            old(self).wf(),
            env < old(self)@.len(),
        ensures
            final(self).wf(),
            final(self)@ == bound(old(self)@, env as int, name, value),
    {
        self.frames[env].values.insert(name, value);
        assert(self@ =~= bound(old(self)@, env as int, name, value));
    }

    /// Adds an empty frame that nothing encloses, and returns its handle.
    pub fn add_outermost(&mut self) -> (r: usize)
        requires
            old(self).wf(),
        ensures
            final(self).wf(),
            r == old(self)@.len(),
            final(self)@ == old(self)@.push(Frame { vars: Map::empty(), enclosing: None }),
    {
        let handle = self.frames.len();
        self.frames.push(EnvironmentImpl::new());
        assert(self@ =~= old(self)@.push(Frame { vars: Map::empty(), enclosing: None }));
        handle
    }

    /// The value of the variable, found in the nearest frame from `env`
    /// outward that binds it.
    pub fn get(&self, env: usize, name: Token) -> (r: Result<LiteralValue, RuntimeError>)
        requires
            self.wf(),
        ensures
            r == (match value_of(self@, env as int, name.symbol) {
                Some(v) => Ok(v),
                None => Err(RuntimeError::UndefinedVariable(name)),
            }),
    {
        match self.binder(env, name.symbol) {
            Some(at) => Ok(self.frames[at].values.get(name.symbol).unwrap()),
            None => Err(RuntimeError::UndefinedVariable(name)),
        }
    }

    /// As `get`, for a name that is known by its symbol only.
    pub fn get_by_name(&self, env: usize, name: usize) -> (r: Result<LiteralValue, RuntimeError>)
        requires
            self.wf(),
        ensures
            r == (match value_of(self@, env as int, name) {
                Some(v) => Ok(v),
                None => Err(RuntimeError::UndefinedVariableName(name)),
            }),
    {
        match self.binder(env, name) {
            Some(at) => Ok(self.frames[at].values.get(name).unwrap()),
            None => Err(RuntimeError::UndefinedVariableName(name)),
        }
    }

    /// The value of the variable in the frame exactly `distance` steps out
    /// from `env`. A chain that is shorter than that is a defect.
    pub fn get_at(&self, env: usize, distance: usize, name: Token) -> (r: Result<
        LiteralValue,
        RuntimeError,
    >)
        requires
            self.wf(),
        ensures
            r == (match ancestor_of(self@, env as int, distance as nat) {
                None => Err(misaligned()),
                Some(at) => match self@[at].vars.get(name.symbol) {
                    Some(v) => Ok(v),
                    None => Err(RuntimeError::UndefinedVariable(name)),
                },
            }),
    {
        match self.ancestor(env, distance) {
            None => Err(RuntimeError::EnvironmentError("Environment stacks misaligned")),
            Some(at) => match self.frames[at].values.get(name.symbol) {
                Some(v) => Ok(v),
                None => Err(RuntimeError::UndefinedVariable(name)),
            },
        }
    }

    /// As `get_at`, for a name that is known by its symbol only.
    pub fn get_at_by_name(&self, env: usize, distance: usize, name: usize) -> (r: Result<
        LiteralValue,
        RuntimeError,
    >)
        requires
            self.wf(),
        ensures
            r == (match ancestor_of(self@, env as int, distance as nat) {
                None => Err(misaligned()),
                Some(at) => match self@[at].vars.get(name) {
                    Some(v) => Ok(v),
                    None => Err(RuntimeError::UndefinedVariableName(name)),
                },
            }),
    {
        match self.ancestor(env, distance) {
            None => Err(RuntimeError::EnvironmentError("Environment stacks misaligned")),
            Some(at) => match self.frames[at].values.get(name) {
                Some(v) => Ok(v),
                None => Err(RuntimeError::UndefinedVariableName(name)),
            },
        }
    }

    /// Gives the variable a new value in the nearest frame from `env`
    /// outward that binds it.
    pub fn assign(&mut self, env: usize, name: Token, value: LiteralValue) -> (r: Result<
        (),
        RuntimeError,
    >)
        requires
            old(self).wf(),
        ensures
            final(self).wf(),
            match binder_of(old(self)@, env as int, name.symbol) {
                Some(at) => r is Ok && final(self)@ == bound(old(self)@, at, name.symbol, value),
                None => r == Err::<(), RuntimeError>(RuntimeError::UndefinedVariable(name))
                    && final(self)@ == old(self)@,
            },
    {
        match self.binder(env, name.symbol) {
            Some(at) => self.define(at, name.symbol, value),
            None => Err(RuntimeError::UndefinedVariable(name)),
        }
    }

    /// Gives the variable a new value in the frame exactly `distance`
    /// steps out from `env`, which must bind it.
    pub fn assign_at(&mut self, env: usize, distance: usize, name: Token, value: LiteralValue)
        -> (r: Result<(), RuntimeError>)
        requires
            old(self).wf(),
        ensures
            final(self).wf(),
            match ancestor_of(old(self)@, env as int, distance as nat) {
                None => r == Err::<(), RuntimeError>(misaligned()) && final(self)@ == old(self)@,
                Some(at) => if old(self)@[at].vars.contains_key(name.symbol) {
                    r is Ok && final(self)@ == bound(old(self)@, at, name.symbol, value)
                } else {
                    r == Err::<(), RuntimeError>(RuntimeError::UndefinedVariable(name))
                        && final(self)@ == old(self)@
                },
            },
    {
        match self.ancestor(env, distance) {
            None => Err(RuntimeError::EnvironmentError("Environment stacks misaligned")),
            Some(at) => {
                if self.frames[at].values.get(name.symbol).is_some() {
                    self.define(at, name.symbol, value)
                } else {
                    Err(RuntimeError::UndefinedVariable(name))
                }
            },
        }
    }
}

/// Shadowing: a variable defined in a frame is seen from that frame, and
/// the frame that encloses it sees what it saw before, as does every
/// other frame.
pub proof fn lemma_define_shadows(frames: Seq<Frame>, env: int, name: usize, value: LiteralValue)
    requires
        0 <= env < frames.len(),
        forall|i: int|
            0 <= i < frames.len() ==> match (#[trigger] frames[i]).enclosing {
                Some(parent) => parent < i,
                None => true,
            },
    ensures
        value_of(bound(frames, env, name, value), env, name) == Some(value),
        value_at(bound(frames, env, name, value), env, 0, name) == Some(value),
        forall|other: int|
            0 <= other < env ==> value_of(bound(frames, env, name, value), other, name)
                == #[trigger] value_of(frames, other, name),
{
    let after = bound(frames, env, name, value);
    assert forall|other: int| 0 <= other < env implies value_of(after, other, name)
        == #[trigger] value_of(frames, other, name) by {
        lemma_binder_below(frames, env, name, value, other);
    }
}

/// What a frame sees does not depend on the frames that were added after
/// it.
pub proof fn lemma_binder_below(
    frames: Seq<Frame>,
    env: int,
    name: usize,
    value: LiteralValue,
    other: int,
)
    requires
        0 <= other < env < frames.len(),
        forall|i: int|
            0 <= i < frames.len() ==> match (#[trigger] frames[i]).enclosing {
                Some(parent) => parent < i,
                None => true,
            },
    ensures
        binder_of(bound(frames, env, name, value), other, name) == binder_of(frames, other, name),
        value_of(bound(frames, env, name, value), other, name) == value_of(frames, other, name),
    decreases other,
{
    let after = bound(frames, env, name, value);
    assert(after[other] == frames[other]);
    if !frames[other].vars.contains_key(name) {
        match frames[other].enclosing {
            Some(parent) => {
                lemma_binder_below(frames, env, name, value, parent as int);
            },
            None => {},
        }
    }
    match binder_of(frames, other, name) {
        Some(at) => {
            lemma_binder_in_chain(frames, other, name);
            assert(after[at] == frames[at]);
        },
        None => {},
    }
}

/// The frame that binds a name for a frame is that frame or an earlier
/// one.
pub proof fn lemma_binder_in_chain(frames: Seq<Frame>, env: int, name: usize)
    ensures
        match binder_of(frames, env, name) {
            Some(at) => 0 <= at <= env && at < frames.len() && frames[at].vars.contains_key(name),
            None => true,
        },
    decreases env,
{
    if 0 <= env < frames.len() && !frames[env].vars.contains_key(name) {
        match frames[env].enclosing {
            Some(parent) => {
                if parent < env {
                    lemma_binder_in_chain(frames, parent as int, name);
                }
            },
            None => {},
        }
    }
}

} // verus!
