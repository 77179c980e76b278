//! Traits over inputs that are sequences of bytes, and their impls for
//! byte slices.

use crate::outcome::{ErrMode, ErrorKind, Needed, PResult, ParseError};
use core::ops::{Range, RangeFrom, RangeFull, RangeTo};
use vstd::prelude::*;
use vstd::slice::slice_subrange;

verus! {

/// `memchr::memchr` returns the index of the first occurrence of `needle`
/// in `haystack`, and `None` where it does not occur.
pub assume_specification[ memchr::memchr ](needle: u8, haystack: &[u8]) -> (r: Option<usize>)
    ensures
        match r {
            Some(i) => i < haystack@.len() && haystack@[i as int] == needle && forall|j: int|
                0 <= j < i ==> haystack@[j] != needle,
            None => forall|j: int| 0 <= j < haystack@.len() ==> haystack@[j] != needle,
        },
;

/// A decoder from bytes.
pub trait Parser {
    /// What the decoder gives.
    type T;

    /// Why it may give nothing.
    type Error;

    /// Decodes `i`.
    fn parse(i: &[u8]) -> Result<Self::T, Self::Error>;
}

/// Inputs that have a length.
pub trait InputLength {
    /// The length can be computed in a `usize`.
    spec fn measurable(&self) -> bool;

    /// The length.
    spec fn spec_input_len(&self) -> nat;

    /// The length of the input.
    fn input_len(&self) -> (r: usize)
        requires
            self.measurable(),
        ensures
            r == self.spec_input_len(),
    ;
}

impl<'a, T> InputLength for &'a [T] {
    open spec fn measurable(&self) -> bool {
        true
    }

    open spec fn spec_input_len(&self) -> nat {
        self@.len()
    }

    fn input_len(&self) -> (r: usize) {
        self.len()
    }
}

/// Bytes of which the first `self.1` bits are used up: the length is in bits.
impl<'a> InputLength for (&'a [u8], usize) {
    open spec fn measurable(&self) -> bool {
        self.1 <= self.0@.len() * 8 <= usize::MAX
    }

    open spec fn spec_input_len(&self) -> nat {
        (self.0@.len() * 8 - self.1) as nat
    }

    fn input_len(&self) -> (r: usize) {
        self.0.len() * 8 - self.1
    }
}

/// Types that can be seen as bytes.
pub trait AsBytes {
    /// The bytes.
    spec fn spec_as_bytes(&self) -> Seq<u8>;

    /// The value as a slice of bytes.
    fn as_bytes(&self) -> (r: &[u8])
        ensures
            r@ == self.spec_as_bytes(),
    ;
}

impl<'a> AsBytes for &'a [u8] {
    open spec fn spec_as_bytes(&self) -> Seq<u8> {
        self@
    }

    fn as_bytes(&self) -> (r: &[u8]) {
        *self
    }
}

impl AsBytes for [u8] {
    open spec fn spec_as_bytes(&self) -> Seq<u8> {
        self@
    }

    fn as_bytes(&self) -> (r: &[u8]) {
        self
    }
}

/// Inputs of which a part can be taken.
pub trait InputTake: Sized + View<V = Seq<u8>> {
    /// The first `count` bytes.
    fn take(&self, count: usize) -> (r: Self)
        requires
            count <= self@.len(),
        ensures
            r@ == self@.subrange(0, count as int),
    ;

    /// The input split after `count` bytes: what follows them, then they.
    fn take_split(&self, count: usize) -> (r: (Self, Self))
        requires
            count <= self@.len(),
        ensures
            r.0@ == self@.subrange(count as int, self@.len() as int),
            r.1@ == self@.subrange(0, count as int),
    ;

    /// The bytes from `pos` up to, not including, `offset`.
    fn take_offsets(&self, offset: usize, pos: usize) -> (r: Self)
        requires
            pos <= offset <= self@.len(),
        ensures
            r@ == self@.subrange(pos as int, offset as int),
    ;
}

impl<'a> InputTake for &'a [u8] {
    fn take(&self, count: usize) -> (r: Self) {
        slice_subrange(*self, 0, count)
    }

    fn take_split(&self, count: usize) -> (r: (Self, Self)) {
        let (prefix, suffix) = self.split_at(count);
        (suffix, prefix)
    }

    fn take_offsets(&self, offset: usize, pos: usize) -> (r: Self) {
        slice_subrange(*self, pos, offset)
    }
}

/// Inputs that can be taken as they are.
pub trait InputTakeIter: Sized + View {
    /// The whole input, whatever `count` is.
    fn take_iter(&self, count: usize) -> (r: Self)
        ensures
            r@ == self@,
    ;
}

impl<'a> InputTakeIter for &'a [u8] {
    fn take_iter(&self, count: usize) -> (r: Self) {
        *self
    }
}

/// `r` is the position of the first item of `s` for which `predicate`
/// returns true, or `None` where it returns false for every item.
pub open spec fn is_first_position<T, P: Fn(T) -> bool>(s: Seq<T>, predicate: P, r: Option<usize>)
    -> bool {
    match r {
        Some(i) => i < s.len() && predicate.ensures((s[i as int],), true) && forall|j: int|
            0 <= j < i ==> predicate.ensures((#[trigger] s[j],), false),
        None => forall|j: int| 0 <= j < s.len() ==> predicate.ensures((#[trigger] s[j],), false),
    }
}

/// What `slice_index` returns for `count` items of an input of `len`.
pub open spec fn index_or_needed(len: nat, count: usize) -> Result<usize, Needed> {
    if len >= count {
        Ok(count)
    } else {
        Err(Needed::of((count - len) as usize))
    }
}

/// Inputs whose items can be walked and searched.
pub trait InputIter {
    /// The type of the items.
    type Item;

    /// The items.
    spec fn elements(&self) -> Seq<Self::Item>;

    /// The items, each with its position.
    fn iter_indices(&self) -> (r: Vec<(usize, Self::Item)>)
        ensures
            r@.len() == self.elements().len(),
            forall|i: int|
                0 <= i < r@.len() ==> (#[trigger] r@[i]).0 == i && r@[i].1 == self.elements()[i],
    ;

    /// The items.
    fn iter_elements(&self) -> (r: Vec<Self::Item>)
        ensures
            r@ == self.elements(),
    ;

    /// The position of the first item for which `predicate` returns true.
    fn position<P>(&self, predicate: P) -> (r: Option<usize>) where P: Fn(Self::Item) -> bool
        requires
            forall|i: int|
                0 <= i < self.elements().len() ==> predicate.requires(
                    (#[trigger] self.elements()[i],),
                ),
        ensures
            is_first_position(self.elements(), predicate, r),
    ;

    /// The position after `count` items, or how many of them are missing.
    fn slice_index(&self, count: usize) -> (r: Result<usize, Needed>)
        ensures
            r == index_or_needed(self.elements().len(), count),
    ;
}

impl<'a> InputIter for &'a [u8] {
    type Item = u8;

    open spec fn elements(&self) -> Seq<u8> {
        self@
    }

    fn iter_indices(&self) -> (r: Vec<(usize, u8)>) {
        let mut out: Vec<(usize, u8)> = Vec::new();
        let mut i: usize = 0;
        while i < self.len()
            invariant
                i <= self@.len(),
                out@.len() == i,
                forall|k: int| 0 <= k < i ==> (#[trigger] out@[k]).0 == k && out@[k].1 == self@[k],
            decreases self@.len() - i,
        {
            out.push((i, self[i]));
            i += 1;
        }
        out
    }

    fn iter_elements(&self) -> (r: Vec<u8>) {
        vstd::slice::slice_to_vec(*self)
    }

    fn position<P>(&self, predicate: P) -> (r: Option<usize>) where P: Fn(u8) -> bool {
        assert(self.elements() == self@);
        let mut i: usize = 0;
        while i < self.len()
            invariant
                i <= self@.len(),
                forall|k: int| 0 <= k < self@.len() ==> predicate.requires((#[trigger] self@[k],)),
                forall|k: int| 0 <= k < i ==> predicate.ensures((#[trigger] self@[k],), false),
            decreases self@.len() - i,
        {
            if predicate(self[i]) {
                return Some(i);
            }
            i += 1;
        }
        None
    }

    fn slice_index(&self, count: usize) -> (r: Result<usize, Needed>) {
        if self.len() >= count {
            Ok(count)
        } else {
            Err(Needed::new(count - self.len()))
        }
    }
}

/// The two parts of `input` around position `i`: what follows, then what
/// comes before.
pub open spec fn split_around<T>(input: Seq<T>, i: int) -> (Seq<T>, Seq<T>) {
    (input.subrange(i, input.len() as int), input.subrange(0, i))
}

/// Inputs that can be split where a condition first holds.
pub trait InputTakeAtPosition: Sized {
    /// The type of the items.
    type Item;

    /// The items.
    spec fn items(&self) -> Seq<Self::Item>;

    /// Splits the input before the first item for which `predicate` returns
    /// true; the part before may be empty. Where there is no such item, more
    /// input is needed.
    fn split_at_position<P: Fn(Self::Item) -> bool, E: ParseError<Self>>(
        &self,
        predicate: P,
    ) -> (r: PResult<Self, Self, E>)
        requires
            forall|i: int|
                0 <= i < self.items().len() ==> predicate.requires((#[trigger] self.items()[i],)),
        ensures
            exists|found: Option<usize>|
                is_first_position(self.items(), predicate, found) && match found {
                    Some(i) => r matches Ok((rest, prefix)) && (rest.items(), prefix.items())
                        == split_around(self.items(), i as int),
                    None => r == Err::<(Self, Self), ErrMode<E>>(
                        ErrMode::Incomplete(Needed::Size(1)),
                    ),
                },
    ;

    /// Splits the input before the first item for which `predicate` returns
    /// true. Where that is the first item of all, the result is the error
    /// for `e`, which leaves other decoders to be tried. Where there is no
    /// such item, more input is needed.
    fn split_at_position1<P: Fn(Self::Item) -> bool, E: ParseError<Self>>(
        &self,
        predicate: P,
        e: ErrorKind,
    ) -> (r: PResult<Self, Self, E>)
        requires
            forall|i: int|
                0 <= i < self.items().len() ==> predicate.requires((#[trigger] self.items()[i],)),
        ensures
            exists|found: Option<usize>|
                is_first_position(self.items(), predicate, found) && match found {
                    Some(i) => if i == 0 {
                        r == Err::<(Self, Self), ErrMode<E>>(
                            ErrMode::Error(E::error_of(*self, e)),
                        )
                    } else {
                        r matches Ok((rest, prefix)) && (rest.items(), prefix.items())
                            == split_around(self.items(), i as int)
                    },
                    None => r == Err::<(Self, Self), ErrMode<E>>(
                        ErrMode::Incomplete(Needed::Size(1)),
                    ),
                },
    ;
}

impl<'a> InputTakeAtPosition for &'a [u8] {
    type Item = u8;

    open spec fn items(&self) -> Seq<u8> {
        self@
    }

    fn split_at_position<P: Fn(u8) -> bool, E: ParseError<Self>>(&self, predicate: P) -> (r: PResult<
        Self,
        Self,
        E,
    >) {
        assert(self.elements() == self.items());
        let found = self.position(predicate);
        let r = match found {
            Some(i) => Ok(self.take_split(i)),
            None => Err(ErrMode::Incomplete(Needed::new(1))),
        };
        assert(is_first_position(self.items(), predicate, found) && match found {
            Some(i) => r matches Ok((rest, prefix)) && (rest.items(), prefix.items())
                == split_around(self.items(), i as int),
            None => r == Err::<(Self, Self), ErrMode<E>>(ErrMode::Incomplete(Needed::Size(1))),
        });
        r
    }

    fn split_at_position1<P: Fn(u8) -> bool, E: ParseError<Self>>(
        &self,
        predicate: P,
        e: ErrorKind,
    ) -> (r: PResult<Self, Self, E>) {
        assert(self.elements() == self.items());
        let found = self.position(predicate);
        let r = match found {
            Some(0) => Err(ErrMode::Error(E::from_error_kind(*self, e))),
            Some(i) => Ok(self.take_split(i)),
            None => Err(ErrMode::Incomplete(Needed::new(1))),
        };
        assert(is_first_position(self.items(), predicate, found) && match found {
            Some(i) => if i == 0 {
                r == Err::<(Self, Self), ErrMode<E>>(ErrMode::Error(E::error_of(*self, e)))
            } else {
                r matches Ok((rest, prefix)) && (rest.items(), prefix.items()) == split_around(
                    self.items(),
                    i as int,
                )
            },
            None => r == Err::<(Self, Self), ErrMode<E>>(ErrMode::Incomplete(Needed::Size(1))),
        });
        r
    }
}

/// Inputs in which a token can be looked for.
pub trait FindToken<T> {
    /// The token occurs in the input.
    spec fn holds_token(&self, token: T) -> bool;

    /// Whether the token occurs in the input.
    fn find_token(&self, token: T) -> (r: bool)
        ensures
            r == self.holds_token(token),
    ;
}

impl<'a> FindToken<u8> for &'a [u8] {
    open spec fn holds_token(&self, token: u8) -> bool {
        self@.contains(token)
    }

    fn find_token(&self, token: u8) -> (r: bool) {
        memchr::memchr(token, *self).is_some()
    }
}

impl<'a, 'b> FindToken<&'a u8> for &'b [u8] {
    open spec fn holds_token(&self, token: &'a u8) -> bool {
        self@.contains(*token)
    }

    fn find_token(&self, token: &'a u8) -> (r: bool) {
        self.find_token(*token)
    }
}

/// Inputs of which a range can be taken.
pub trait Slice<R>: Sized + View {
    /// The range lies within the input.
    spec fn holds_range(&self, range: R) -> bool;

    /// The items in the range.
    spec fn sliced(&self, range: R) -> Self::V;

    /// The part of the input that `range` selects.
    fn slice(&self, range: R) -> (r: Self)
        requires
            self.holds_range(range),
        ensures
            r@ == self.sliced(range),
    ;
}

impl<'a, T> Slice<Range<usize>> for &'a [T] {
    open spec fn holds_range(&self, range: Range<usize>) -> bool {
        range.start <= range.end <= self@.len()
    }

    open spec fn sliced(&self, range: Range<usize>) -> Seq<T> {
        self@.subrange(range.start as int, range.end as int)
    }

    fn slice(&self, range: Range<usize>) -> (r: Self) {
        slice_subrange(*self, range.start, range.end)
    }
}

/// `core::ops::RangeTo`, the range `..end`: its field is public.
#[verifier::external_type_specification]
#[verifier::reject_recursive_types(Idx)]
pub struct ExRangeTo<Idx>(RangeTo<Idx>);

/// `core::ops::RangeFrom`, the range `start..`: its field is public.
#[verifier::external_type_specification]
#[verifier::reject_recursive_types(Idx)]
pub struct ExRangeFrom<Idx>(RangeFrom<Idx>);

/// `core::ops::RangeFull`, the range `..`, which has no fields.
#[verifier::external_type_specification]
pub struct ExRangeFull(RangeFull);

impl<'a, T> Slice<RangeTo<usize>> for &'a [T] {
    open spec fn holds_range(&self, range: RangeTo<usize>) -> bool {
        range.end <= self@.len()
    }

    open spec fn sliced(&self, range: RangeTo<usize>) -> Seq<T> {
        self@.subrange(0, range.end as int)
    }

    fn slice(&self, range: RangeTo<usize>) -> (r: Self) {
        slice_subrange(*self, 0, range.end)
    }
}

impl<'a, T> Slice<RangeFrom<usize>> for &'a [T] {
    open spec fn holds_range(&self, range: RangeFrom<usize>) -> bool {
        range.start <= self@.len()
    }

    open spec fn sliced(&self, range: RangeFrom<usize>) -> Seq<T> {
        self@.subrange(range.start as int, self@.len() as int)
    }

    fn slice(&self, range: RangeFrom<usize>) -> (r: Self) {
        slice_subrange(*self, range.start, self.len())
    }
}

impl<'a, T> Slice<RangeFull> for &'a [T] {
    open spec fn holds_range(&self, range: RangeFull) -> bool {
        true
    }

    open spec fn sliced(&self, range: RangeFull) -> Seq<T> {
        self@
    }

    fn slice(&self, range: RangeFull) -> (r: Self) {
        *self
    }
}

} // verus!
