use vstd::prelude::*;

use crate::value::JValue;
use crate::text::str_equal;

verus! {

/// The attribute bits of an object property; the associated constants are
/// the bit masks of the attributes.
#[derive(Debug, Clone, Copy, PartialEq, Eq, Structural)]
pub struct PropFlag(pub u8);

impl PropFlag {
    /// The flag with the given attribute bits.
    pub fn new(bits: u8) -> (r: PropFlag)
        ensures
            r.0 == bits,
    {
        PropFlag(bits)
    }

    /// The raw bits.
    pub open spec fn bits(self) -> u8 {
        self.0
    }

    /// Whether bit `mask` is set.
    pub open spec fn has(self, mask: u8) -> bool {
        self.0 & mask != 0
    }

    /// The union of two sets of attributes.
    pub fn union(self, rhs: PropFlag) -> (r: PropFlag)
        ensures
            r.0 == self.0 | rhs.0,
    {
        PropFlag(self.0 | rhs.0)
    }

    /// The attributes present in both sets.
    pub fn intersection(self, rhs: PropFlag) -> (r: PropFlag)
        ensures
            r.0 == self.0 & rhs.0,
    {
        PropFlag(self.0 & rhs.0)
    }

    pub fn is_enumerable(self) -> (r: bool)
        ensures
            r == self.has(0b00000001),
    {
        self.intersection(PropFlag(PropFlag::ENUMERABLE)).0 != 0
    }

    pub fn is_writable(self) -> (r: bool)
        ensures
            r == self.has(0b00000010),
    {
        self.intersection(PropFlag(PropFlag::WRITABLE)).0 != 0
    }

    pub fn is_configurable(self) -> (r: bool)
        ensures
            r == self.has(0b00000100),
    {
        self.intersection(PropFlag(PropFlag::CONFIGURABLE)).0 != 0
    }

    pub fn is_getter(self) -> (r: bool)
        ensures
            r == self.has(0b00001000),
    {
        self.intersection(PropFlag(PropFlag::GETTER)).0 != 0
    }

    pub fn is_setter(self) -> (r: bool)
        ensures
            r == self.has(0b00010000),
    {
        self.intersection(PropFlag(PropFlag::SETTER)).0 != 0
    }

}

impl PropFlag {
    pub const NONE: u8 = 0;
    pub const ENUMERABLE: u8 = 1;
    pub const WRITABLE: u8 = 2;
    pub const CONFIGURABLE: u8 = 4;
    pub const GETTER: u8 = 8;
    pub const SETTER: u8 = 16;
    /// WRITABLE and CONFIGURABLE
    pub const BUILTIN: u8 = 6;
    /// ENUMERABLE, WRITABLE and CONFIGURABLE
    pub const THREE: u8 = 7;
}


impl Default for PropFlag {
    /// A property is by default enumerable, writable and configurable.
    fn default() -> (r: PropFlag)
        ensures
            r.0 == PropFlag::THREE,
    {
        PropFlag(PropFlag::THREE)
    }
}

impl core::ops::BitOr for PropFlag {
    type Output = PropFlag;

    fn bitor(self, rhs: PropFlag) -> (r: PropFlag)
        ensures
            r.0 == self.0 | rhs.0,
    {
        self.union(rhs)
    }
}

impl core::ops::BitAnd for PropFlag {
    type Output = PropFlag;

    fn bitand(self, rhs: PropFlag) -> (r: PropFlag)
        ensures
            r.0 == self.0 & rhs.0,
    {
        self.intersection(rhs)
    }
}

impl vstd::std_specs::ops::BitOrSpecImpl for PropFlag {
    open spec fn obeys_bitor_spec() -> bool {
        true
    }

    open spec fn bitor_req(self, rhs: PropFlag) -> bool {
        true
    }

    open spec fn bitor_spec(self, rhs: PropFlag) -> PropFlag {
        PropFlag(self.0 | rhs.0)
    }
}

impl vstd::std_specs::ops::BitAndSpecImpl for PropFlag {
    open spec fn obeys_bitand_spec() -> bool {
        true
    }

    open spec fn bitand_req(self, rhs: PropFlag) -> bool {
        true
    }

    open spec fn bitand_spec(self, rhs: PropFlag) -> PropFlag {
        PropFlag(self.0 & rhs.0)
    }
}

/// Setting an attribute adds exactly that attribute: after `f | a`, every
/// attribute of `f` and `a` is present and no other.
pub proof fn lemma_union_attributes(f: u8, a: u8, mask: u8)
    ensures
        ((f | a) & mask != 0) == ((f & mask != 0) || (a & mask != 0)),
{
    assert(((f | a) & mask != 0) == ((f & mask != 0) || (a & mask != 0))) by (bit_vector);
}

/// The interned name of an object property.
#[derive(Hash, Clone, Copy, PartialEq, Eq, Structural, Debug)]
pub struct PropKey(pub(crate) u32);

/// The table that numbers property names: a name keeps the number it was
/// first given.
pub struct FieldNames {
    names: Vec<String>,
}

impl View for FieldNames {
    type V = Seq<Seq<char>>;

    closed spec fn view(&self) -> Seq<Seq<char>> {
        self.names@.map_values(|s: String| s@)
    }
}

/// The number of `name` among the first `k` names, the first it occurs at.
pub open spec fn name_index(names: Seq<Seq<char>>, name: Seq<char>, k: int) -> Option<int>
    decreases k,
{
    if k <= 0 {
        None
    } else {
        match name_index(names, name, k - 1) {
            Some(i) => Some(i),
            None => if names[k - 1] == name {
                Some(k - 1)
            } else {
                None
            },
        }
    }
}

/// A name found among the first `k` names is found at the same number
/// among more of them.
proof fn lemma_name_index_stable(names: Seq<Seq<char>>, name: Seq<char>, k: int, m: int)
    requires
        k <= m,
        name_index(names, name, k) is Some,
    ensures
        name_index(names, name, m) == name_index(names, name, k),
    decreases m - k,
{
    if k < m {
        lemma_name_index_stable(names, name, k, m - 1);
    }
}

/// The table after `name` is registered, and the number of `name`.
pub open spec fn spec_register_name(names: Seq<Seq<char>>, name: Seq<char>) -> (Seq<Seq<char>>, int) {
    match name_index(names, name, names.len() as int) {
        Some(i) => (names, i),
        None => (names.push(name), names.len() as int),
    }
}

/// No name occurs twice in the table.
pub open spec fn names_distinct(names: Seq<Seq<char>>) -> bool {
    forall|i: int, j: int| 0 <= i < j < names.len() ==> names[i] != names[j]
}

proof fn lemma_name_index_found(names: Seq<Seq<char>>, name: Seq<char>, k: int)
    requires
        0 <= k <= names.len(),
    ensures
        name_index(names, name, k) matches Some(i) ==> 0 <= i < k && names[i] == name,
        name_index(names, name, k) is None ==> forall|j: int| 0 <= j < k ==> names[j] != name,
    decreases k,
{
    if k > 0 {
        lemma_name_index_found(names, name, k - 1);
    }
}

/// After a name is registered, the table holds it at the number it was
/// given, and every name held before is held still at its place.
pub proof fn lemma_register_name_contains(names: Seq<Seq<char>>, name: Seq<char>)
    ensures
        ({
            let (t, i) = spec_register_name(names, name);
            &&& 0 <= i < t.len()
            &&& t[i] == name
            &&& t.contains(name)
            &&& names.is_prefix_of(t)
        }),
{
    lemma_name_index_found(names, name, names.len() as int);
    let (t, i) = spec_register_name(names, name);
    assert(t[i] == name);
    assert(names.is_prefix_of(t));
}

/// Registering a name twice gives it the same number and leaves the table
/// as the first registration left it; two names get the same number
/// exactly when they are equal, and the table never holds a name twice.
pub proof fn lemma_register_name_laws(names: Seq<Seq<char>>, a: Seq<char>, b: Seq<char>)
    requires
        names_distinct(names),
    ensures
        ({
            let (t1, i) = spec_register_name(names, a);
            let (t2, j) = spec_register_name(t1, b);
            &&& spec_register_name(t1, a) == (t1, i)
            &&& names_distinct(t1)
            &&& names_distinct(t2)
            &&& (i == j <==> a == b)
            &&& 0 <= i < t1.len()
            &&& t1[i] == a
        }),
{
    let (t1, i) = spec_register_name(names, a);
    lemma_name_index_found(names, a, names.len() as int);
    lemma_name_index_found(t1, a, t1.len() as int);
    if name_index(names, a, names.len() as int) is None {
        assert(name_index(t1, a, names.len() as int) == name_index(names, a, names.len() as int)) by {
            lemma_name_index_prefix(names, t1, a, names.len() as int);
        }
    }
    let (t2, j) = spec_register_name(t1, b);
    lemma_name_index_found(t1, b, t1.len() as int);
    if name_index(t1, b, t1.len() as int) is None {
        assert(name_index(t2, b, t1.len() as int) == name_index(t1, b, t1.len() as int)) by {
            lemma_name_index_prefix(t1, t2, b, t1.len() as int);
        }
    }
    lemma_name_index_found(t2, b, t2.len() as int);
}

/// The search among the first `k` names sees only those names.
proof fn lemma_name_index_prefix(s: Seq<Seq<char>>, t: Seq<Seq<char>>, name: Seq<char>, k: int)
    requires
        0 <= k <= s.len(),
        k <= t.len(),
        forall|j: int| 0 <= j < k ==> s[j] == t[j],
    ensures
        name_index(t, name, k) == name_index(s, name, k),
    decreases k,
{
    if k > 0 {
        lemma_name_index_prefix(s, t, name, k - 1);
    }
}

impl FieldNames {
    /// An empty table.
    pub fn new() -> (r: FieldNames)
        ensures
            r@ == Seq::<Seq<char>>::empty(),
    {
        let r = FieldNames { names: Vec::new() };
        assert(r@ =~= Seq::<Seq<char>>::empty());
        r
    }

    /// The number of `name`, which is given the next number when it is new.
    pub fn register_field_name(&mut self, name: &str) -> (id: u32)
        requires
            old(self)@.len() < u32::MAX,
        ensures
            (final(self)@, id as int) == spec_register_name(old(self)@, name@),
    {
        let n = self.names.len();
        let mut i: usize = 0;
        while i < n
            invariant
                n == self.names@.len(),
                n == self@.len(),
                self@ == old(self)@,
                n < u32::MAX,
                i <= n,
                name_index(self@, name@, i as int) is None,
            decreases n - i,
        {
            assert(self@[i as int] == self.names@[i as int]@);
            if str_equal(self.names[i].as_str(), name) {
                proof {
                    lemma_name_index_stable(self@, name@, i + 1, n as int);
                }
                return i as u32;
            }
            i = i + 1;
        }
        self.names.push(name.to_string());
        assert(self@ =~= old(self)@.push(name@));
        n as u32
    }
}

/// What can name a property: a key, or a name that is registered in the
/// table of property names.
pub trait ToProperyKey {
    fn to_key(&self, names: &mut FieldNames) -> (k: PropKey)
        requires
            old(names)@.len() < u32::MAX,
    ;
}

impl ToProperyKey for PropKey {
    /// A key names itself.
    fn to_key(&self, names: &mut FieldNames) -> (k: PropKey)
        ensures
            k == *self,
            final(names)@ == old(names)@,
    {
        return *self;
    }
}

impl ToProperyKey for str {
    /// A name is keyed by its number in the table.
    fn to_key(&self, names: &mut FieldNames) -> (k: PropKey)
        ensures
            (final(names)@, k.index() as int) == spec_register_name(old(names)@, self@),
    {
        let id = names.register_field_name(self);
        PropKey(id)
    }
}

impl ToProperyKey for String {
    /// A name is keyed by its number in the table.
    fn to_key(&self, names: &mut FieldNames) -> (k: PropKey)
        ensures
            (final(names)@, k.index() as int) == spec_register_name(old(names)@, self@),
    {
        let id = names.register_field_name(self.as_str());
        PropKey(id)
    }
}

impl PropKey {
    /// The number of the property name.
    pub closed spec fn index(self) -> u32 {
        self.0
    }
}

/// An own property of an object: its attributes, its value (the getter
/// when the property has one) and its setter.
#[derive(Clone, Copy)]
pub struct PropCell {
    pub flag: PropFlag,
    /// value acts as getter when flag has getter
    pub value: JValue,
    pub setter: JValue,
}

} // verus!
