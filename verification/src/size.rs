//! Symbolic byte counts and their evaluation against concrete sizes.

use vstd::prelude::*;

verus! {

/// A byte count that may depend on sizes only the host knows.
#[derive(Debug, PartialEq, Eq)]
pub enum SizeExpr {
    /// A known number of bytes.
    Bytes(usize),
    /// One pointer-sized integer.
    Pointer,
    /// The size of the declared type of the field with this name.
    TypeOf(String),
    /// The first size plus the second.
    Sum(Box<SizeExpr>, Box<SizeExpr>),
    /// The first size minus the second.
    Diff(Box<SizeExpr>, Box<SizeExpr>),
}

/// Mathematical model of a [`SizeExpr`].
pub enum SizeTerm {
    Bytes(nat),
    Pointer,
    TypeOf(Seq<char>),
    Sum(Box<SizeTerm>, Box<SizeTerm>),
    Diff(Box<SizeTerm>, Box<SizeTerm>),
}

impl SizeExpr {
    /// The term this expression stands for.
    pub open spec fn term(&self) -> SizeTerm
        decreases self,
    {
        match self {
            SizeExpr::Bytes(n) => SizeTerm::Bytes(*n as nat),
            SizeExpr::Pointer => SizeTerm::Pointer,
            SizeExpr::TypeOf(name) => SizeTerm::TypeOf(name@),
            SizeExpr::Sum(a, b) => SizeTerm::Sum(Box::new(a.term()), Box::new(b.term())),
            SizeExpr::Diff(a, b) => SizeTerm::Diff(Box::new(a.term()), Box::new(b.term())),
        }
    }
}

impl View for SizeExpr {
    type V = SizeTerm;

    open spec fn view(&self) -> SizeTerm {
        self.term()
    }
}

impl DeepView for SizeExpr {
    type V = SizeTerm;

    open spec fn deep_view(&self) -> SizeTerm {
        self@
    }
}

impl Clone for SizeExpr {
    fn clone(&self) -> (res: Self)
        ensures
            res == *self,
        decreases self,
    {
        match self {
            SizeExpr::Bytes(n) => SizeExpr::Bytes(*n),
            SizeExpr::Pointer => SizeExpr::Pointer,
            SizeExpr::TypeOf(name) => SizeExpr::TypeOf(name.clone()),
            SizeExpr::Sum(a, b) => SizeExpr::Sum(Box::new((&**a).clone()), Box::new((&**b).clone())),
            SizeExpr::Diff(a, b) => SizeExpr::Diff(
                Box::new((&**a).clone()),
                Box::new((&**b).clone()),
            ),
        }
    }
}

/// The concrete size of the declared type of one field.
#[derive(Debug, PartialEq, Eq)]
pub struct KnownSize {
    pub field: String,
    pub size: usize,
}

/// Mathematical model of a [`KnownSize`].
pub struct KnownSizeModel {
    pub field: Seq<char>,
    pub size: nat,
}

impl View for KnownSize {
    type V = KnownSizeModel;

    open spec fn view(&self) -> KnownSizeModel {
        KnownSizeModel { field: self.field@, size: self.size as nat }
    }
}

impl DeepView for KnownSize {
    type V = KnownSizeModel;

    open spec fn deep_view(&self) -> KnownSizeModel {
        self@
    }
}

/// The concrete sizes the host supplies at realization: the width of a
/// pointer, and the size of the declared type of each field that is named.
/// Where a field is named twice, the first entry counts.
#[derive(Debug, PartialEq, Eq)]
pub struct SizeTable {
    pub pointer_size: usize,
    pub known: Vec<KnownSize>,
}

/// Mathematical model of a [`SizeTable`].
pub struct SizeEnv {
    pub pointer: nat,
    pub known: Seq<KnownSizeModel>,
}

impl View for SizeTable {
    type V = SizeEnv;

    open spec fn view(&self) -> SizeEnv {
        SizeEnv { pointer: self.pointer_size as nat, known: self.known.deep_view() }
    }
}

/// The size recorded for `field`: that of the first entry naming it.
pub open spec fn lookup(known: Seq<KnownSizeModel>, field: Seq<char>) -> Option<nat>
    decreases known.len(),
{
    if known.len() == 0 {
        None
    } else if known[0].field == field {
        Some(known[0].size)
    } else {
        lookup(known.drop_first(), field)
    }
}

/// Why a size expression has no value.
#[derive(Clone, Copy, Debug, PartialEq, Eq, Structural)]
pub enum Fault {
    /// A difference went below zero, or a sum above `usize::MAX`.
    OutOfRange,
    /// The expression names a field whose type size the table lacks.
    Unknown,
}

/// The value of a size term under `env`, computed in the host's `usize`:
/// operands are evaluated left to right and the first fault ends the
/// evaluation.
pub open spec fn eval(term: SizeTerm, env: SizeEnv) -> Result<nat, Fault>
    decreases term,
{
    match term {
        SizeTerm::Bytes(n) => Ok(n),
        SizeTerm::Pointer => Ok(env.pointer),
        SizeTerm::TypeOf(field) => match lookup(env.known, field) {
            Some(n) => Ok(n),
            None => Err(Fault::Unknown),
        },
        SizeTerm::Sum(a, b) => match eval(*a, env) {
            Err(f) => Err(f),
            Ok(x) => match eval(*b, env) {
                Err(f) => Err(f),
                Ok(y) => if x + y <= usize::MAX {
                    Ok(x + y)
                } else {
                    Err(Fault::OutOfRange)
                },
            },
        },
        SizeTerm::Diff(a, b) => match eval(*a, env) {
            Err(f) => Err(f),
            Ok(x) => match eval(*b, env) {
                Err(f) => Err(f),
                Ok(y) => if y <= x {
                    Ok((x - y) as nat)
                } else {
                    Err(Fault::OutOfRange)
                },
            },
        },
    }
}

impl SizeTable {
    /// Looks up the concrete size of the declared type of `field`.
    pub fn size_of(&self, field: &String) -> (r: Option<usize>)
        ensures
            match r {
                Some(n) => lookup(self@.known, field@) == Some(n as nat),
                None => lookup(self@.known, field@) is None,
            },
    {
        let mut i: usize = 0;
        assert(self@.known.skip(0) =~= self@.known);
        while i < self.known.len()
            invariant
                i <= self.known.len(),
                lookup(self@.known, field@) == lookup(self@.known.skip(i as int), field@),
            decreases self.known.len() - i,
        {
            let ghost rest = self@.known.skip(i as int);
            assert(rest[0] == self.known[i as int]@);
            assert(rest.drop_first() =~= self@.known.skip(i + 1));
            if self.known[i].field == *field {
                return Some(self.known[i].size);
            }
            i += 1;
        }
        None
    }
}

impl SizeExpr {
    /// Evaluates the expression against the host's concrete sizes.
    pub fn eval(&self, table: &SizeTable) -> (r: Result<usize, Fault>)
        ensures
            match r {
                Ok(v) => eval(self@, table@) == Ok::<nat, Fault>(v as nat),
                Err(f) => eval(self@, table@) == Err::<nat, Fault>(f),
            },
        decreases self,
    {
        match self {
            SizeExpr::Bytes(n) => Ok(*n),
            SizeExpr::Pointer => Ok(table.pointer_size),
            SizeExpr::TypeOf(field) => match table.size_of(field) {
                Some(n) => Ok(n),
                None => Err(Fault::Unknown),
            },
            SizeExpr::Sum(a, b) => {
                let x = match a.eval(table) {
                    Ok(x) => x,
                    Err(f) => { return Err(f); },
                };
                let y = match b.eval(table) {
                    Ok(y) => y,
                    Err(f) => { return Err(f); },
                };
                match x.checked_add(y) {
                    Some(v) => Ok(v),
                    None => Err(Fault::OutOfRange),
                }
            },
            SizeExpr::Diff(a, b) => {
                let x = match a.eval(table) {
                    Ok(x) => x,
                    Err(f) => { return Err(f); },
                };
                let y = match b.eval(table) {
                    Ok(y) => y,
                    Err(f) => { return Err(f); },
                };
                match x.checked_sub(y) {
                    Some(v) => Ok(v),
                    None => Err(Fault::OutOfRange),
                }
            },
        }
    }
}

} // verus!
