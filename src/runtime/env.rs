//! The variable store of one run: a flat map from names to values.
use vstd::prelude::*;
use rustc_hash::FxHashMap;
use crate::runtime::value::{RuntimeError, Value, ValueV};

verus! {

/// A hash map from variable names to values, kept behind the wrappers
/// below; what it holds is `table_contents`.
#[verifier::external_body]
pub(crate) struct VarTable {
    map: FxHashMap<String, Value>,
}

/// What a table holds: a map from the characters of each name to its value.
pub uninterp spec fn table_contents(t: VarTable) -> Map<Seq<char>, Value>;

impl VarTable {
    /// Relies on `FxHashMap::default`, which makes an empty map.
    #[verifier::external_body]
    fn empty() -> (r: VarTable)
        ensures
            table_contents(r).dom() == Set::<Seq<char>>::empty(),
    {
        VarTable { map: FxHashMap::default() }
    }

    /// Relies on `HashMap::insert`, which binds the key to the value and
    /// replaces any earlier binding of an equal key.
    #[verifier::external_body]
    fn insert(&mut self, name: String, value: Value)
        ensures
            table_contents(*final(self)) == table_contents(*old(self)).insert(name@, value),
    {
        self.map.insert(name, value);
    }

    /// Relies on `HashMap::clone`, which copies every binding; values are
    /// copied by `Value::clone`, which keeps them equal.
    #[verifier::external_body]
    fn duplicate(&self) -> (r: VarTable)
        ensures
            table_contents(r) == table_contents(*self),
    {
        VarTable { map: self.map.clone() }
    }

    /// Relies on `HashMap::get`, which finds the value bound to an equal key.
    #[verifier::external_body]
    fn lookup(&self, name: &str) -> (r: Option<&Value>)
        ensures
            match r {
                Some(v) => table_contents(*self).contains_key(name@) && table_contents(
                    *self,
                )[name@] == *v,
                None => !table_contents(*self).contains_key(name@),
            },
    {
        self.map.get(name)
    }
}

/// The variables of one run.
pub struct Environment {
    vars: VarTable,
}

impl View for Environment {
    type V = Map<Seq<char>, ValueV>;

    closed spec fn view(&self) -> Map<Seq<char>, ValueV> {
        table_contents(self.vars).map_values(|v: Value| v@)
    }
}

impl Clone for Environment {
    /// An independent copy with the same bindings.
    fn clone(&self) -> (r: Self)
        ensures
            r@ == self@,
    {
        Environment { vars: self.vars.duplicate() }
    }
}

impl Environment {
    /// An environment with no variables.
    pub fn new() -> (r: Environment)
        ensures
            r@.dom() == Set::<Seq<char>>::empty(),
    {
        let r = Environment { vars: VarTable::empty() };
        assert(r@.dom() =~= Set::<Seq<char>>::empty());
        r
    }

    /// Binds `name` to `value`, replacing any earlier binding and its type.
    pub fn set(&mut self, name: String, value: Value)
        ensures
            final(self)@ == old(self)@.insert(name@, value@),
    {
        self.vars.insert(name, value);
        assert(self@ =~= old(self)@.insert(name@, value@));
    }

    /// The value bound to `name`, or `UndefinedVariable` naming it.
    pub fn get(&self, name: &str) -> (r: Result<&Value, RuntimeError>)
        ensures
            self@.contains_key(name@) ==> (r matches Ok(v) && v@ == self@[name@]),
            !self@.contains_key(name@) ==> (r matches Err(RuntimeError::UndefinedVariable { name: n })
                && n@ == name@),
    {
        match self.vars.lookup(name) {
            Some(v) => Ok(v),
            None => Err(RuntimeError::UndefinedVariable { name: name.to_owned() }),
        }
    }
}

} // verus!
