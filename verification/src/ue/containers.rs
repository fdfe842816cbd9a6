//! Engine arrays and engine strings, held as plain values.
use vstd::prelude::*;
use vstd::string::StrSliceExecFns;

verus! {

/// An engine array: its elements and the capacity it reports.
pub struct TArray<T> {
    data: Vec<T>,
    count: u32,
    max: u32,
}

impl<T> TArray<T> {
    #[verifier::type_invariant]
    spec fn count_matches(self) -> bool {
        self.data@.len() == self.count as nat
    }

    /// The capacity that the array reports.
    pub closed spec fn capacity(&self) -> u32 {
        self.max
    }
}

impl<T> View for TArray<T> {
    type V = Seq<T>;

    closed spec fn view(&self) -> Seq<T> {
        self.data@
    }
}

impl<T: Clone> TArray<T> {
    /// An empty array with no capacity.
    pub fn new() -> (a: Self)
        ensures
            a@ == Seq::<T>::empty(),
            a.capacity() == 0,
    {
        Self { data: Vec::new(), count: 0u32, max: 0u32 }
    }

    /// An array holding `data`, reporting `max` as its capacity.
    pub fn from_elements(data: Vec<T>, max: u32) -> (a: Self)
        requires
            data@.len() <= u32::MAX,
        ensures
            a@ == data@,
            a.capacity() == max,
    {
        let count = data.len() as u32;
        Self { data, count, max }
    }

    /// A clone of the element at `index`.
    pub fn get(&self, index: u32) -> (e: T)
        requires
            index < self@.len(),
        ensures
            cloned(self@[index as int], e),
    {
        self.data[index as usize].clone()
    }

    pub fn len(&self) -> (n: usize)
        ensures
            n == self@.len(),
    {
        proof {
            use_type_invariant(self);
        }
        self.count as usize
    }

    pub fn is_empty(&self) -> (b: bool)
        ensures
            b == (self@.len() == 0),
    {
        proof {
            use_type_invariant(self);
        }
        self.count == 0
    }

    /// The capacity that the array reports.
    pub fn max(&self) -> (m: u32)
        ensures
            m == self.capacity(),
    {
        self.max
    }

    /// The elements, in order.
    pub fn as_slice(&self) -> (s: &[T])
        ensures
            s@ == self@,
    {
        self.data.as_slice()
    }

    /// An iterator over the elements, from the first.
    pub fn iter(&self) -> (it: TArrayIterator<'_, T>)
        ensures
            it.remaining() == self@,
    {
        proof {
            use_type_invariant(self);
        }
        TArrayIterator { array: self, current_index: 0 }
    }
}

/// What is left to hand out after one call of `next`: all but the first
/// element, or nothing when nothing was left.
pub open spec fn after_next<T>(remaining: Seq<T>) -> Seq<T> {
    if remaining.len() == 0 {
        remaining
    } else {
        remaining.drop_first()
    }
}

/// What is left to hand out after `k` calls of `next`.
pub open spec fn after_calls<T>(remaining: Seq<T>, k: nat) -> Seq<T>
    decreases k,
{
    if k == 0 {
        remaining
    } else {
        after_next(after_calls(remaining, (k - 1) as nat))
    }
}

/// Iterating an array from its start hands out its elements in order: before
/// call `k + 1` of `next`, for `k` below the length, element `k` is the next to
/// come, so that call returns a clone of it; once the length is reached
/// nothing is left, so every later call returns `None`. A fresh iterator thus
/// gives exactly as many elements as the array holds, then `None` for good.
pub proof fn law_iteration_in_order<T>(elements: Seq<T>, k: nat)
    ensures
        k < elements.len() ==> after_calls(elements, k) == elements.subrange(
            k as int,
            elements.len() as int,
        ) && after_calls(elements, k)[0] == elements[k as int],
        k >= elements.len() ==> after_calls(elements, k).len() == 0,
    decreases k,
{
    if k > 0 {
        law_iteration_in_order(elements, (k - 1) as nat);
        if k < elements.len() {
            assert(after_calls(elements, k) =~= elements.subrange(k as int, elements.len() as int));
        }
    }
}

/// A position in an engine array, handing out clones of the elements in order.
pub struct TArrayIterator<'a, T: Clone> {
    array: &'a TArray<T>,
    current_index: u32,
}

impl<'a, T: Clone> TArrayIterator<'a, T> {
    #[verifier::type_invariant]
    spec fn within_array(self) -> bool {
        self.current_index <= self.array@.len()
    }

    /// The elements that the iterator has yet to hand out, in order.
    pub closed spec fn remaining(&self) -> Seq<T> {
        self.array@.subrange(self.current_index as int, self.array@.len() as int)
    }

    /// The next element, or `None` once all have been handed out.
    pub fn next(&mut self) -> (r: Option<T>)
        ensures
            final(self).remaining() == after_next(old(self).remaining()),
            r is Some <==> old(self).remaining().len() > 0,
            r is Some ==> cloned(old(self).remaining()[0], r->0),
    {
        proof {
            use_type_invariant(&*self);
            use_type_invariant(self.array);
        }
        if self.current_index < self.array.count {
            let element = self.array.get(self.current_index);
            self.current_index = self.current_index + 1;
            assert(self.remaining() =~= old(self).remaining().drop_first());
            Some(element)
        } else {
            None
        }
    }
}

/// The UTF-16 code units of one character.
pub open spec fn utf16_units(c: char) -> Seq<u16> {
    let v = c as u32;
    if v < 0x10000 {
        seq![v as u16]
    } else {
        seq![
            (0xD800 + (v - 0x10000) / 0x400) as u16,
            (0xDC00 + (v - 0x10000) % 0x400) as u16,
        ]
    }
}

/// The UTF-16 code units of a text, character after character.
pub open spec fn encode_utf16(s: Seq<char>) -> Seq<u16>
    decreases s.len(),
{
    if s.len() == 0 {
        Seq::empty()
    } else {
        encode_utf16(s.drop_last()) + utf16_units(s.last())
    }
}

/// The low 32 bits of `c`.
pub open spec fn low_u32(c: usize) -> u32 {
    c as u32
}

/// Calls `Vec::capacity`. Claimed: the capacity is at least the length; what
/// the allocator gave beyond that is left open.
#[verifier::external_body]
fn vec_capacity(v: &Vec<u16>) -> (c: usize)
    ensures
        c >= v@.len(),
{
    v.capacity()
}

/// An engine string: NUL-terminated UTF-16 code units.
pub struct FString(TArray<u16>);

impl View for FString {
    type V = Seq<u16>;

    closed spec fn view(&self) -> Seq<u16> {
        self.0@
    }
}

impl FString {
    /// The capacity that the string's array reports.
    pub closed spec fn capacity(&self) -> u32 {
        self.0.capacity()
    }

    /// The string's code units, terminator included.
    pub fn units(&self) -> (a: &TArray<u16>)
        ensures
            a@ == self@,
            a.capacity() == self.capacity(),
    {
        &self.0
    }

    /// `string` as UTF-16 code units followed by a terminating 0; the capacity
    /// is that of the buffer that holds them.
    pub fn new(string: &str) -> (f: Self)
        requires
            encode_utf16(string@).len() < u32::MAX,
        ensures
            f@ == encode_utf16(string@).push(0u16),
            exists|c: usize| c >= f@.len() && f.capacity() == #[trigger] low_u32(c),
    {
        let n = string.unicode_len();
        let mut utf16: Vec<u16> = Vec::new();
        let mut i: usize = 0;
        while i < n
            invariant
                n == string@.len(),
                i <= n,
                utf16@ == encode_utf16(string@.take(i as int)),
            decreases n - i,
        {
            let c = string.get_char(i);
            assert(string@.take(i as int + 1).drop_last() =~= string@.take(i as int));
            assert(string@.take(i as int + 1).last() == c);
            let v = c as u32;
            if v < 0x10000 {
                utf16.push(v as u16);
            } else {
                assert(v <= 0x10FFFF) by {
                    vstd::utf8::char_is_scalar(c);
                }
                let u = v - 0x10000;
                utf16.push((0xD800 + u / 0x400) as u16);
                utf16.push((0xDC00 + u % 0x400) as u16);
            }
            i = i + 1;
            assert(utf16@ =~= encode_utf16(string@.take(i as int)));
        }
        assert(string@.take(n as int) =~= string@);
        utf16.push(0);
        let cap = vec_capacity(&utf16);
        let count = utf16.len() as u32;
        let max = #[verifier::truncate] (cap as u32);
        assert(max == low_u32(cap));
        let tarray = TArray { data: utf16, count, max };
        FString(tarray)
    }
}

/// A character at or above U+10000 takes two code units: a high surrogate
/// (D800 to DBFF) and a low one (DC00 to DFFF) that together give back its code.
pub proof fn law_encode_utf16_surrogates(c: char)
    requires
        (c as u32) >= 0x10000,
    ensures
        utf16_units(c).len() == 2,
        0xD800 <= utf16_units(c)[0] <= 0xDBFF,
        0xDC00 <= utf16_units(c)[1] <= 0xDFFF,
        (utf16_units(c)[0] - 0xD800) * 0x400 + (utf16_units(c)[1] - 0xDC00) + 0x10000 == c as u32,
{
    vstd::utf8::char_is_scalar(c);
    let v = c as u32;
    assert((v - 0x10000) / 0x400 * 0x400 + (v - 0x10000) % 0x400 == v - 0x10000);
}

/// The units of a text are those of its characters in order: the units of
/// `a + b` are those of `a` followed by those of `b`.
pub proof fn law_encode_utf16_concat(a: Seq<char>, b: Seq<char>)
    ensures
        encode_utf16(a + b) == encode_utf16(a) + encode_utf16(b),
    decreases b.len(),
{
    if b.len() == 0 {
        assert(a + b =~= a);
        assert(encode_utf16(b) =~= Seq::<u16>::empty());
    } else {
        law_encode_utf16_concat(a, b.drop_last());
        assert((a + b).drop_last() =~= a + b.drop_last());
        assert((a + b).last() == b.last());
    }
}

/// A text whose characters all lie below U+10000 takes one code unit per
/// character, each equal to the character's code.
pub proof fn law_encode_utf16_bmp(s: Seq<char>)
    requires
        forall|k: int| 0 <= k < s.len() ==> (#[trigger] s[k] as u32) < 0x10000,
    ensures
        encode_utf16(s).len() == s.len(),
        forall|k: int| 0 <= k < s.len() ==> #[trigger] encode_utf16(s)[k] == s[k] as u32 as u16,
    decreases s.len(),
{
    if s.len() > 0 {
        let p = s.drop_last();
        assert forall|k: int| 0 <= k < p.len() implies (#[trigger] p[k] as u32) < 0x10000 by {
            assert(p[k] == s[k]);
        }
        law_encode_utf16_bmp(p);
        assert forall|k: int| 0 <= k < s.len() implies #[trigger] encode_utf16(s)[k] == s[k] as u32 as u16 by {
            if k < p.len() {
                assert(p[k] == s[k]);
            }
        }
    }
}

} // verus!
