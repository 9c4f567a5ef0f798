//! Values and statements of the configuration language.

use vstd::prelude::*;

verus! {

/// The mathematical form of a value.
pub enum Val {
    Num(Seq<char>),
    Tuple(Seq<Val>),
    Range(Box<Val>, Box<Val>),
    Bool(bool),
    Nil,
}

/// A value as it was read. A number is kept as the text of its literal;
/// which number that text stands for is for the caller to say.
#[derive(Debug)]
pub enum ConfigVal {
    Num(String),
    Tuple(Vec<ConfigVal>),
    Range(Box<ConfigVal>, Box<ConfigVal>),
    Bool(bool),
    Nil,
}

impl ConfigVal {
    /// The value as a mathematical term.
    pub open spec fn model(&self) -> Val
        decreases self,
    {
        match self {
            ConfigVal::Num(t) => Val::Num(t@),
            ConfigVal::Tuple(items) => Val::Tuple(
                Seq::new(
                    items.len() as nat,
                    |i: int|
                        if 0 <= i < items.len() {
                            items[i].model()
                        } else {
                            Val::Nil
                        },
                ),
            ),
            ConfigVal::Range(a, b) => Val::Range(Box::new((**a).model()), Box::new((**b).model())),
            ConfigVal::Bool(b) => Val::Bool(*b),
            ConfigVal::Nil => Val::Nil,
        }
    }
}

/// The terms of a sequence of values.
pub open spec fn models(v: Seq<ConfigVal>) -> Seq<Val> {
    Seq::new(v.len(), |i: int| v[i].model())
}

impl Clone for ConfigVal {
    fn clone(&self) -> (c: Self)
        ensures
            c@ == self@,
        decreases self,
    {
        match self {
            ConfigVal::Num(text) => ConfigVal::Num(text.clone()),
            ConfigVal::Tuple(items) => {
                let mut copy: Vec<ConfigVal> = Vec::with_capacity(items.len());
                let mut k: usize = 0;
                while k < items.len()
                    invariant
                        self is Tuple,
                        self->Tuple_0 == *items,
                        k <= items.len(),
                        copy@.len() == k,
                        forall|i: int| 0 <= i < k ==> copy@[i].model() == items@[i].model(),
                    decreases items.len() - k,
                {
                    copy.push(items[k].clone());
                    k = k + 1;
                }
                assert(ConfigVal::Tuple(copy).model()->Tuple_0 =~= self.model()->Tuple_0);
                ConfigVal::Tuple(copy)
            },
            ConfigVal::Range(a, b) => ConfigVal::Range(
                Box::new((**a).clone()),
                Box::new((**b).clone()),
            ),
            ConfigVal::Bool(b) => ConfigVal::Bool(*b),
            ConfigVal::Nil => ConfigVal::Nil,
        }
    }
}

impl View for ConfigVal {
    type V = Val;

    open spec fn view(&self) -> Val {
        self.model()
    }
}

/// One statement: a name and its value.
#[derive(Debug)]
pub struct ConfigParam {
    pub(crate) name: String,
    pub(crate) val: ConfigVal,
}

impl Clone for ConfigParam {
    fn clone(&self) -> (c: Self)
        ensures
            c@ == self@,
    {
        ConfigParam { name: self.name.clone(), val: self.val.clone() }
    }
}

impl View for ConfigParam {
    type V = (Seq<char>, Val);

    open(crate) spec fn view(&self) -> (Seq<char>, Val) {
        (self.name@, self.val@)
    }
}

impl ConfigParam {
    /// The name and the value.
    pub fn split(self) -> (r: (String, ConfigVal))
        ensures
            r.0@ == self@.0,
            r.1@ == self@.1,
    {
        (self.name, self.val)
    }
}

} // verus!
