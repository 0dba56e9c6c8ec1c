//! The runtime's quoted-value representation: the value model that
//! reification of literal syntax produces into, with the list factory that
//! builds the nested-pair encoding of lists, and the casts the rest of the
//! interpreter uses to take values apart.

use vstd::prelude::*;

verus! {

/// A runtime object: the empty-list sentinel, the two boolean singletons,
/// an interned symbol (canonical by printed name), or a pair. The flag on a
/// pair records which of the runtime's two pair representations (mutable or
/// immutable) it uses.
#[derive(Debug, PartialEq)]
pub enum SchemeObject {
    EmptyList,
    True,
    False,
    Symbol(String),
    Pair { mutable: bool, car: Box<SchemeType>, cdr: Box<SchemeType> },
}

/// A runtime value: an immediate scalar, an owned string, or an object.
#[derive(Debug, PartialEq)]
pub enum SchemeType {
    Number(i64),
    Char(char),
    String(String),
    Object(SchemeObject),
}

/// A cast was asked of a value of the wrong shape.
#[derive(Debug, Clone, Copy, PartialEq, Eq, Structural)]
pub struct CastError;

/// The runtime's canonical interned symbol value for a printed name.
/// Interning is by name: two calls with equal names give equal values, so a
/// generated symbol whose synthesized name collides with a user-typed
/// spelling reifies to the same runtime symbol.
pub fn new_symbol(name: String) -> (r: SchemeObject)
    ensures
        r == SchemeObject::Symbol(name),
{
    SchemeObject::Symbol(name)
}

/// `d` is the pair chain that holds `items` in order and ends in `tail`:
/// the runtime's nested-pair encoding of a list. Every pair of the chain
/// uses the representation chosen by `mutable`.
pub open spec fn pair_chain(d: SchemeType, items: Seq<SchemeType>, tail: SchemeType, mutable: bool) -> bool
    decreases items.len(),
{
    if items.len() == 0 {
        d == tail
    } else {
        &&& d matches SchemeType::Object(SchemeObject::Pair { mutable: m, car, cdr })
        &&& m == mutable
        &&& *car == items[0]
        &&& pair_chain(*cdr, items.drop_first(), tail, mutable)
    }
}

/// Deep equality of runtime values: equal scalars, text equal character by
/// character, and objects equal as `object_eq` says.
pub open spec fn datum_eq(a: SchemeType, b: SchemeType) -> bool
    decreases a,
{
    match (a, b) {
        (SchemeType::Number(x), SchemeType::Number(y)) => x == y,
        (SchemeType::Char(x), SchemeType::Char(y)) => x == y,
        (SchemeType::String(x), SchemeType::String(y)) => x@ == y@,
        (SchemeType::Object(x), SchemeType::Object(y)) => object_eq(x, y),
        _ => false,
    }
}

/// Deep equality of runtime objects: the same singleton, symbols with the
/// same printed name, or pairs of the same representation equal slot by
/// slot.
pub open spec fn object_eq(a: SchemeObject, b: SchemeObject) -> bool
    decreases a,
{
    match (a, b) {
        (SchemeObject::EmptyList, SchemeObject::EmptyList) => true,
        (SchemeObject::True, SchemeObject::True) => true,
        (SchemeObject::False, SchemeObject::False) => true,
        (SchemeObject::Symbol(x), SchemeObject::Symbol(y)) => x@ == y@,
        (
            SchemeObject::Pair { mutable: m1, car: c1, cdr: d1 },
            SchemeObject::Pair { mutable: m2, car: c2, cdr: d2 },
        ) => m1 == m2 && datum_eq(*c1, *c2) && datum_eq(*d1, *d2),
        _ => false,
    }
}

/// Builds a runtime list: elements are pushed in order and become a pair
/// chain ending in the chosen tail (the empty list for a plain build).
#[derive(Debug)]
pub struct ListFactory {
    mutable: bool,
    items: Vec<SchemeType>,
}

impl ListFactory {
    /// The elements pushed so far, in order.
    pub closed spec fn items(&self) -> Seq<SchemeType> {
        self.items@
    }

    /// Which pair representation the built chain will use.
    pub closed spec fn is_mutable(&self) -> bool {
        self.mutable
    }

    /// An empty factory for a chain of mutable or immutable pairs.
    pub fn new(mutable: bool) -> (r: ListFactory)
        ensures
            r.items() == Seq::<SchemeType>::empty(),
            r.is_mutable() == mutable,
    {
        ListFactory { mutable, items: Vec::new() }
    }

    /// Appends one element to the list under construction.
    pub fn push(&mut self, object: SchemeType)
        ensures
            final(self).items() == old(self).items().push(object),
            final(self).is_mutable() == old(self).is_mutable(),
    {
        self.items.push(object);
    }

    /// The built list: a pair chain over the pushed elements, ending in the
    /// empty-list sentinel.
    pub fn build(self) -> (r: SchemeType)
        ensures
            pair_chain(r, self.items(), SchemeType::Object(SchemeObject::EmptyList), self.is_mutable()),
    {
        self.build_with_tail(SchemeType::Object(SchemeObject::EmptyList))
    }

    /// The built list with an explicit tail: a pair chain over the pushed
    /// elements whose last pair holds `object` in its second slot.
    pub fn build_with_tail(self, object: SchemeType) -> (r: SchemeType)
        ensures
            pair_chain(r, self.items(), object, self.is_mutable()),
    {
        let ListFactory { mutable, mut items } = self;
        let ghost all = items@;
        let mut acc = object;
        while items.len() > 0
            invariant
                items@ == all.take(items@.len() as int),
                items@.len() <= all.len(),
                pair_chain(acc, all.skip(items@.len() as int), object, mutable),
            decreases items@.len(),
        {
            let ghost k = items@.len() as int;
            let x = match items.pop() {
                Some(x) => x,
                None => vstd::pervasive::unreached(),
            };
            proof {
                assert(x == all[k - 1]);
                assert(all.skip(k - 1).drop_first() =~= all.skip(k));
                assert(items@ =~= all.take(k - 1));
            }
            acc = SchemeType::Object(
                SchemeObject::Pair { mutable, car: Box::new(x), cdr: Box::new(acc) },
            );
        }
        proof {
            assert(all.skip(0) =~= all);
        }
        acc
    }
}

impl SchemeType {
    /// The number this value holds, or a cast error for any other shape.
    pub fn to_number(&self) -> (r: Result<i64, CastError>)
        ensures
            match *self {
                SchemeType::Number(n) => r == Ok::<i64, CastError>(n),
                _ => r == Err::<i64, CastError>(CastError),
            },
    {
        if let SchemeType::Number(num) = self {
            Ok(*num)
        } else {
            Err(CastError)
        }
    }

    /// The number this value holds as an index: it must be a number, not
    /// negative, and small enough for the platform's `usize`.
    pub fn to_index(&self) -> (r: Result<usize, CastError>)
        ensures
            match *self {
                SchemeType::Number(n) => if 0 <= n as int && n as int <= usize::MAX as int {
                    r == Ok::<usize, CastError>(n as usize)
                } else {
                    r == Err::<usize, CastError>(CastError)
                },
                _ => r == Err::<usize, CastError>(CastError),
            },
    {
        let raw_num = match self.to_number() {
            Ok(n) => n,
            Err(e) => {
                return Err(e);
            },
        };
        // Indexes need to be positive.
        if raw_num < 0 {
            return Err(CastError);
        }
        let num: u64 = raw_num as u64;
        // On 32-bit platforms the index must also fit in usize.
        if num > (usize::MAX as u64) {
            Err(CastError)
        } else {
            Ok(num as usize)
        }
    }

    /// The character this value holds, or a cast error.
    pub fn to_char(&self) -> (r: Result<char, CastError>)
        ensures
            match *self {
                SchemeType::Char(c) => r == Ok::<char, CastError>(c),
                _ => r == Err::<char, CastError>(CastError),
            },
    {
        if let SchemeType::Char(c) = self {
            Ok(*c)
        } else {
            Err(CastError)
        }
    }

    /// The object this value refers to, or a cast error.
    pub fn into_object(self) -> (r: Result<SchemeObject, CastError>)
        ensures
            match self {
                SchemeType::Object(o) => r == Ok::<SchemeObject, CastError>(o),
                _ => r == Err::<SchemeObject, CastError>(CastError),
            },
    {
        if let SchemeType::Object(obj) = self {
            Ok(obj)
        } else {
            Err(CastError)
        }
    }

    /// The string this value holds, or a cast error.
    pub fn into_string(self) -> (r: Result<String, CastError>)
        ensures
            match self {
                SchemeType::String(s) => r == Ok::<String, CastError>(s),
                _ => r == Err::<String, CastError>(CastError),
            },
    {
        if let SchemeType::String(stri) = self {
            Ok(stri)
        } else {
            Err(CastError)
        }
    }

    /// The truth value of this value under the language's rules: everything
    /// is true except the boolean false object.
    pub fn to_bool(&self) -> (r: bool)
        ensures
            r == !(*self matches SchemeType::Object(SchemeObject::False)),
    {
        match self {
            SchemeType::Object(SchemeObject::False) => false,
            _ => true,
        }
    }

    /// The runtime boolean for a host boolean: one of the two singletons.
    pub fn from_bool(is_true: bool) -> (r: SchemeType)
        ensures
            r == if is_true {
                SchemeType::Object(SchemeObject::True)
            } else {
                SchemeType::Object(SchemeObject::False)
            },
    {
        if is_true {
            SchemeType::Object(SchemeObject::True)
        } else {
            SchemeType::Object(SchemeObject::False)
        }
    }

    /// The runtime value of an object.
    pub fn from_object(object: SchemeObject) -> (r: SchemeType)
        ensures
            r == SchemeType::Object(object),
    {
        SchemeType::Object(object)
    }

    /// The runtime number for an index. An index too large for the
    /// runtime's signed numbers is left out.
    pub fn from_index(index: usize) -> (r: SchemeType)
        requires
            index <= i64::MAX as usize,
        ensures
            r == SchemeType::Number(index as i64),
    {
        SchemeType::Number(index as i64)
    }
}

} // verus!
