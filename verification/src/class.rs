//! Classes and instances.
//!
//! Classes live in one table and instances in another, and each is named
//! by its place there: all variables that hold an instance see the same
//! fields. A class is always added after its superclass, hence no chain of
//! superclasses runs in a circle.

use vstd::prelude::*;
use crate::bindings::Bindings;
use crate::literal::LiteralValue;
use crate::tables::{symbol_map_contents, symbol_map_get, SymbolMap};
use crate::token::Token;

verus! {

/// Class holds methods.
pub struct Class {
    /// The symbol of the name.
    pub name: usize,
    /// The handle of the superclass.
    pub superclass: Option<usize>,
    /// For each method name, the handle of the function.
    pub methods: SymbolMap,
}

/// What a class holds.
pub struct ClassData {
    pub name: usize,
    pub superclass: Option<usize>,
    pub methods: Map<usize, usize>,
}

impl View for Class {
    type V = ClassData;

    open spec fn view(&self) -> ClassData {
        ClassData {
            name: self.name,
            superclass: self.superclass,
            methods: symbol_map_contents(self.methods),
        }
    }
}

impl Class {
    pub fn new(name: usize, superclass: Option<usize>, methods: SymbolMap) -> (r: Class)
        ensures
            r@ == (ClassData { name, superclass, methods: symbol_map_contents(methods) }),
    {
        Class { name, superclass, methods }
    }
}

/// Instance holds fields.
pub struct LochxInstanceImpl {
    /// The handle of the class.
    pub class: usize,
    pub fields: Bindings,
}

/// What an instance holds.
pub struct InstanceData {
    pub class: usize,
    pub fields: Map<usize, LiteralValue>,
}

impl View for LochxInstanceImpl {
    type V = InstanceData;

    open spec fn view(&self) -> InstanceData {
        InstanceData { class: self.class, fields: self.fields@ }
    }
}

impl LochxInstanceImpl {
    /// An instance of the class without fields.
    pub fn new(class: usize) -> (r: LochxInstanceImpl)
        ensures
            r.fields.wf(),
            r@ == (InstanceData { class, fields: Map::empty() }),
    {
        LochxInstanceImpl { class, fields: Bindings::new() }
    }

    /// The value of a field of the instance itself. Where there is none,
    /// the evaluator looks for a method of the class.
    pub fn get(&self, name: &Token) -> (r: Option<LiteralValue>)
        requires
            self.fields.wf(),
        ensures
            r == self@.fields.get(name.symbol),
    {
        self.fields.get(name.symbol)
    }

    /// Writes a field of the instance, whether it exists or not.
    pub fn set(&mut self, name: &Token, value: LiteralValue)
        requires
            old(self).fields.wf(),
        ensures
            final(self).fields.wf(),
            final(self)@ == (InstanceData {
                class: old(self)@.class,
                fields: old(self)@.fields.insert(name.symbol, value),
            }),
    {
        self.fields.insert(name.symbol, value);
    }
}

/// The method of the given name that a class has: its own, or else that of
/// the nearest superclass that has one.
pub open spec fn method_of(classes: Seq<ClassData>, class: int, name: usize) -> Option<usize>
    decreases class,
{
    if !(0 <= class < classes.len()) {
        None
    } else if classes[class].methods.contains_key(name) {
        Some(classes[class].methods[name])
    } else {
        match classes[class].superclass {
            Some(parent) => if parent < class {
                method_of(classes, parent as int, name)
            } else {
                None
            },
            None => None,
        }
    }
}

/// All the classes.
pub struct Classes {
    pub classes: Vec<Class>,
}

impl View for Classes {
    type V = Seq<ClassData>;

    open spec fn view(&self) -> Seq<ClassData> {
        Seq::new(self.classes@.len(), |i: int| self.classes@[i]@)
    }
}

impl Classes {
    pub fn new() -> (r: Classes)
        ensures
            r@.len() == 0,
    {
        Classes { classes: Vec::new() }
    }

    /// Adds a class and returns its handle.
    pub fn add(&mut self, class: Class) -> (r: usize)
        ensures
            final(self)@ == old(self)@.push(class@),
            r == old(self)@.len(),
    {
        let handle = self.classes.len();
        self.classes.push(class);
        assert(self@ =~= old(self)@.push(class@));
        handle
    }

    /// The method of the given name that the class has: its own, or else
    /// that of the nearest superclass that has one.
    pub fn find_method_by_name(&self, class: usize, name: usize) -> (r: Option<usize>)
        ensures
            r == method_of(self@, class as int, name),
    {
        let mut at = class;
        loop
            invariant
                method_of(self@, at as int, name) == method_of(self@, class as int, name),
            decreases at,
        {
            if at >= self.classes.len() {
                return None;
            }
            match symbol_map_get(&self.classes[at].methods, name) {
                Some(m) => {
                    return Some(m);
                },
                None => {},
            }
            match self.classes[at].superclass {
                Some(parent) => {
                    if parent < at {
                        at = parent;
                    } else {
                        return None;
                    }
                },
                None => {
                    return None;
                },
            }
        }
    }
}

/// All the instances.
pub struct Instances {
    pub instances: Vec<LochxInstanceImpl>,
}

impl View for Instances {
    type V = Seq<InstanceData>;

    open spec fn view(&self) -> Seq<InstanceData> {
        Seq::new(self.instances@.len(), |i: int| self.instances@[i]@)
    }
}

impl Instances {
    pub open spec fn wf(&self) -> bool {
        forall|i: int| 0 <= i < self.instances@.len() ==> (#[trigger] self.instances@[i]).fields.wf()
    }

    pub fn new() -> (r: Instances)
        ensures
            r.wf(),
            r@.len() == 0,
    {
        Instances { instances: Vec::new() }
    }

    /// Adds an instance of the class, without fields, and returns its
    /// handle.
    pub fn add(&mut self, class: usize) -> (r: usize)
        requires
            old(self).wf(),
        ensures
            final(self).wf(),
            final(self)@ == old(self)@.push(InstanceData { class, fields: Map::empty() }),
            r == old(self)@.len(),
    {
        let handle = self.instances.len();
        self.instances.push(LochxInstanceImpl::new(class));
        assert(self@ =~= old(self)@.push(InstanceData { class, fields: Map::empty() }));
        handle
    }

    /// The value of a field of an instance.
    pub fn field(&self, instance: usize, name: &Token) -> (r: Option<LiteralValue>)
        requires
            self.wf(),
            instance < self@.len(),
        ensures
            r == self@[instance as int].fields.get(name.symbol),
    {
        self.instances[instance].get(name)
    }

    /// Writes a field of an instance.
    pub fn set_field(&mut self, instance: usize, name: &Token, value: LiteralValue)
        requires
            old(self).wf(),
            instance < old(self)@.len(),
        ensures
            final(self).wf(),
            final(self)@ == old(self)@.update(
                instance as int,
                InstanceData {
                    class: old(self)@[instance as int].class,
                    fields: old(self)@[instance as int].fields.insert(name.symbol, value),
                },
            ),
    {
        self.instances[instance].set(name, value);
        assert(self@ =~= old(self)@.update(
            instance as int,
            InstanceData {
                class: old(self)@[instance as int].class,
                fields: old(self)@[instance as int].fields.insert(name.symbol, value),
            },
        ));
    }
}

} // verus!
