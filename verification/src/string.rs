//! Engine strings.
//!
//! A [`JsString`] is an immutable sequence of UTF-16 code units. Content is
//! held either as one byte per unit (latin-1, for strings whose units all
//! fit a byte) or as full 16-bit units. Dynamic strings share their content
//! through a reference-counted allocation; static strings own their content
//! and carry no reference count, mirroring the tagged form the engine uses
//! for its well-known names. [`JsStr`] is the borrowed form of the same
//! data.

use vstd::prelude::*;
use vstd::slice::{slice_index_get, slice_subrange};
use vstd::std_specs::iter::IteratorSpec;
use std::rc::Rc;

verus! {

broadcast use vstd::string::next_postcondition, vstd::string::axiom_spec_iter;

/// The UTF-16 units a latin-1 byte run stands for.
pub open spec fn lat1_units(b: Seq<u8>) -> Seq<u16> {
    b.map_values(|x: u8| x as u16)
}

/// The UTF-16 units of one character: itself for the basic plane, a
/// surrogate pair above it.
pub open spec fn utf16_of_char(c: char) -> Seq<u16> {
    if (c as u32) < 0x10000 {
        seq![(c as u32) as u16]
    } else {
        seq![
            (0xD800 + ((c as u32) - 0x10000) / 0x400) as u16,
            (0xDC00 + ((c as u32) - 0x10000) % 0x400) as u16,
        ]
    }
}

/// The UTF-16 encoding of a character sequence.
pub open spec fn utf16_of(s: Seq<char>) -> Seq<u16>
    decreases s.len(),
{
    if s.len() == 0 {
        Seq::empty()
    } else {
        utf16_of_char(s[0]) + utf16_of(s.drop_first())
    }
}

/// Appending one character appends its units.
pub proof fn lemma_utf16_of_snoc(s: Seq<char>, c: char)
    ensures
        utf16_of(s.push(c)) == utf16_of(s) + utf16_of_char(c),
    decreases s.len(),
{
    if s.len() == 0 {
        assert(s.push(c).drop_first() =~= s);
        assert(utf16_of(s.push(c)) =~= utf16_of(s) + utf16_of_char(c));
    } else {
        assert(s.push(c).drop_first() =~= s.drop_first().push(c));
        lemma_utf16_of_snoc(s.drop_first(), c);
        assert(utf16_of(s.push(c)) =~= utf16_of(s) + utf16_of_char(c));
    }
}

/// The UTF-16 code units of a string slice's characters.
pub fn utf16_from_str(s: &str) -> (r: Vec<u16>)
    ensures
        r@ == utf16_of(s@),
{
    let mut it = s.chars();
    let ghost all = s@;
    let ghost mut done: Seq<char> = Seq::empty();
    let mut r: Vec<u16> = Vec::new();
    proof {
        assert(done + it.remaining() =~= all);
        assert(utf16_of(done) =~= r@);
    }
    loop
        invariant
            it.obeys_prophetic_iter_laws(),
            done + it.remaining() == all,
            it.decrease() is Some,
            r@ == utf16_of(done),
        ensures
            r@ == utf16_of(all),
        decreases it.decrease()->Some_0,
    {
        let ghost old_rem = it.remaining();
        match it.next() {
            Some(c) => {
                let v = c as u32;
                proof {
                    vstd::utf8::char_is_scalar(c);
                }
                if v < 0x10000 {
                    r.push(v as u16);
                    proof {
                        assert(utf16_of_char(c) =~= seq![v as u16]);
                    }
                } else {
                    let hi = 0xD800 + (v - 0x10000) / 0x400;
                    let lo = 0xDC00 + (v - 0x10000) % 0x400;
                    proof {
                        assert(v <= 0x10FFFF);
                        assert(hi < 0x10000 && lo < 0x10000);
                        assert(utf16_of_char(c) =~= seq![hi as u16, lo as u16]);
                    }
                    r.push(hi as u16);
                    r.push(lo as u16);
                }
                proof {
                    lemma_utf16_of_snoc(done, c);
                    done = done.push(c);
                    assert(done + it.remaining() =~= all);
                    assert(r@ =~= utf16_of(done));
                }
            }
            None => {
                proof {
                    assert(old_rem.len() == 0);
                    assert(done =~= all);
                }
                break;
            }
        }
    }
    r
}

/// Borrowed string content: latin-1 bytes or full UTF-16 units.
#[derive(Debug, Clone, Copy)]
pub enum JsStr<'a> {
    /// One byte per code unit.
    Latin1(&'a [u8]),
    /// Full 16-bit code units.
    Utf16(&'a [u16]),
}

impl<'a> View for JsStr<'a> {
    type V = Seq<u16>;

    /// The UTF-16 code units this slice stands for.
    open spec fn view(&self) -> Seq<u16> {
        match *self {
            JsStr::Latin1(b) => lat1_units(b@),
            JsStr::Utf16(u) => u@,
        }
    }
}

impl<'a> JsStr<'a> {
    /// Wraps latin-1 content.
    pub fn latin1(b: &'a [u8]) -> (r: JsStr<'a>)
        ensures
            r@ == lat1_units(b@),
            r.is_latin1_spec(),
    {
        JsStr::Latin1(b)
    }

    /// Wraps UTF-16 content.
    pub fn utf16(u: &'a [u16]) -> (r: JsStr<'a>)
        ensures
            r@ == u@,
            !r.is_latin1_spec(),
    {
        JsStr::Utf16(u)
    }

    /// Whether the content is held one byte per unit.
    pub open spec fn is_latin1_spec(&self) -> bool {
        self is Latin1
    }

    /// Whether the content is held one byte per unit.
    pub fn is_latin1(&self) -> (r: bool)
        ensures
            r == self.is_latin1_spec(),
    {
        match *self {
            JsStr::Latin1(_) => true,
            JsStr::Utf16(_) => false,
        }
    }

    /// The number of code units.
    pub fn len(&self) -> (n: usize)
        ensures
            n == self@.len(),
    {
        match *self {
            JsStr::Latin1(b) => b.len(),
            JsStr::Utf16(u) => u.len(),
        }
    }

    /// The code unit at an index.
    pub fn get(&self, i: usize) -> (u: u16)
        requires
            i < self@.len(),
        ensures
            u == self@[i as int],
    {
        match *self {
            JsStr::Latin1(b) => *slice_index_get(b, i) as u16,
            JsStr::Utf16(u) => *slice_index_get(u, i),
        }
    }

    /// The code units, owned.
    pub fn to_units(&self) -> (r: Vec<u16>)
        ensures
            r@ == self@,
    {
        let n = self.len();
        let mut r: Vec<u16> = Vec::new();
        let mut i: usize = 0;
        while i < n
            invariant
                i <= n,
                n == self@.len(),
                r@ == self@.take(i as int),
            decreases n - i,
        {
            r.push(self.get(i));
            assert(r@ =~= self@.take(i + 1));
            i = i + 1;
        }
        assert(self@.take(n as int) =~= self@);
        r
    }
}


/// Relies on `Rc::clone`: the returned handle shares the allocation and so
/// holds the same value.
#[verifier::external_body]
fn rc_clone<T>(rc: &Rc<T>) -> (r: Rc<T>)
    ensures
        r == *rc,
{
    Rc::clone(rc)
}

/// Relies on `Rc::strong_count`: the number of live handles to the
/// allocation. Nothing is promised of the count, which depends on the
/// program's run.
#[verifier::external_body]
fn rc_strong_count<T>(rc: &Rc<T>) -> usize {
    Rc::strong_count(rc)
}

/// Relies on `Rc::ptr_eq`: true only when both handles share one
/// allocation, which then holds one value.
#[verifier::external_body]
fn rc_ptr_eq<T>(a: &Rc<T>, b: &Rc<T>) -> (r: bool)
    ensures
        r ==> *a == *b,
{
    Rc::ptr_eq(a, b)
}

/// Copies a byte vector.
fn copy_bytes(v: &Vec<u8>) -> (r: Vec<u8>)
    ensures
        r@ == v@,
{
    let mut r: Vec<u8> = Vec::new();
    let mut i: usize = 0;
    while i < v.len()
        invariant
            i <= v@.len(),
            r@ == v@.take(i as int),
        decreases v@.len() - i,
    {
        r.push(v[i]);
        assert(r@ =~= v@.take(i + 1));
        i = i + 1;
    }
    assert(v@.take(v@.len() as int) =~= v@);
    r
}

/// Copies a unit vector.
fn copy_units(v: &Vec<u16>) -> (r: Vec<u16>)
    ensures
        r@ == v@,
{
    let mut r: Vec<u16> = Vec::new();
    let mut i: usize = 0;
    while i < v.len()
        invariant
            i <= v@.len(),
            r@ == v@.take(i as int),
        decreases v@.len() - i,
    {
        r.push(v[i]);
        assert(r@ =~= v@.take(i + 1));
        i = i + 1;
    }
    assert(v@.take(v@.len() as int) =~= v@);
    r
}

/// How a string's content is held.
#[derive(Debug)]
enum Repr {
    /// Owned latin-1 content without a reference count.
    StaticLatin1(Vec<u8>),
    /// Owned UTF-16 content without a reference count.
    StaticUtf16(Vec<u16>),
    /// Shared latin-1 content.
    HeapLatin1(Rc<Vec<u8>>),
    /// Shared UTF-16 content.
    HeapUtf16(Rc<Vec<u16>>),
}

/// An immutable engine string: a sequence of UTF-16 code units.
#[derive(Debug)]
pub struct JsString {
    repr: Repr,
}

impl View for JsString {
    type V = Seq<u16>;

    /// The UTF-16 code units this string stands for.
    closed spec fn view(&self) -> Seq<u16> {
        match self.repr {
            Repr::StaticLatin1(ref b) => lat1_units(b@),
            Repr::StaticUtf16(ref u) => u@,
            Repr::HeapLatin1(ref b) => lat1_units((**b)@),
            Repr::HeapUtf16(ref u) => (**u)@,
        }
    }
}

impl JsString {
    /// Whether the string is a static one, owning its content outside the
    /// reference-counted heap.
    pub closed spec fn is_static_spec(&self) -> bool {
        self.repr is StaticLatin1 || self.repr is StaticUtf16
    }

    /// Whether the content is held one byte per unit.
    pub closed spec fn is_latin1_spec(&self) -> bool {
        self.repr is StaticLatin1 || self.repr is HeapLatin1
    }

    /// A fresh shared string holding the given units.
    pub fn from_units(units: &[u16]) -> (r: JsString)
        ensures
            r@ == units@,
            !r.is_static_spec(),
            !r.is_latin1_spec(),
    {
        let mut v: Vec<u16> = Vec::new();
        let mut i: usize = 0;
        while i < units.len()
            invariant
                i <= units@.len(),
                v@ == units@.take(i as int),
            decreases units@.len() - i,
        {
            v.push(*slice_index_get(units, i));
            assert(v@ =~= units@.take(i + 1));
            i = i + 1;
        }
        assert(units@.take(units@.len() as int) =~= units@);
        JsString { repr: Repr::HeapUtf16(Rc::new(v)) }
    }

    /// A fresh shared string holding the UTF-16 units of a string slice's
    /// characters.
    pub fn from_str(s: &str) -> (r: JsString)
        ensures
            r@ == utf16_of(s@),
            !r.is_static_spec(),
    {
        let units = utf16_from_str(s);
        JsString { repr: Repr::HeapUtf16(Rc::new(units)) }
    }

    /// A fresh shared string holding borrowed content, keeping its
    /// latin-1 form.
    pub fn from_js_str(s: JsStr<'_>) -> (r: JsString)
        ensures
            r@ == s@,
            !r.is_static_spec(),
            r.is_latin1_spec() == s.is_latin1_spec(),
    {
        match s {
            JsStr::Latin1(b) => {
                let mut v: Vec<u8> = Vec::new();
                let mut i: usize = 0;
                while i < b.len()
                    invariant
                        i <= b@.len(),
                        v@ == b@.take(i as int),
                    decreases b@.len() - i,
                {
                    v.push(*slice_index_get(b, i));
                    assert(v@ =~= b@.take(i + 1));
                    i = i + 1;
                }
                assert(b@.take(b@.len() as int) =~= b@);
                assert(lat1_units(v@) =~= lat1_units(b@));
                JsString { repr: Repr::HeapLatin1(Rc::new(v)) }
            }
            JsStr::Utf16(u) => {
                let r = JsString::from_units(u);
                r
            }
        }
    }

    /// The borrowed form of this string's content.
    pub fn as_str(&self) -> (r: JsStr<'_>)
        ensures
            r@ == self@,
            r.is_latin1_spec() == self.is_latin1_spec(),
    {
        match self.repr {
            Repr::StaticLatin1(ref b) => JsStr::Latin1(b.as_slice()),
            Repr::StaticUtf16(ref u) => JsStr::Utf16(u.as_slice()),
            Repr::HeapLatin1(ref b) => {
                let v: &Vec<u8> = &**b;
                JsStr::Latin1(v.as_slice())
            }
            Repr::HeapUtf16(ref u) => {
                let v: &Vec<u16> = &**u;
                JsStr::Utf16(v.as_slice())
            }
        }
    }

    /// The number of UTF-16 code units.
    pub fn len(&self) -> (n: usize)
        ensures
            n == self@.len(),
    {
        self.as_str().len()
    }

    /// The code unit at an index.
    pub fn unit_at(&self, i: usize) -> (u: u16)
        requires
            i < self@.len(),
        ensures
            u == self@[i as int],
    {
        self.as_str().get(i)
    }

    /// Whether the string is static.
    pub fn is_static(&self) -> (r: bool)
        ensures
            r == self.is_static_spec(),
    {
        match self.repr {
            Repr::StaticLatin1(_) | Repr::StaticUtf16(_) => true,
            _ => false,
        }
    }

    /// The number of live handles sharing this string's content, or `None`
    /// for a static string, which carries no count.
    pub fn refcount(&self) -> (r: Option<usize>)
        ensures
            (r is None) == self.is_static_spec(),
    {
        match self.repr {
            Repr::StaticLatin1(_) | Repr::StaticUtf16(_) => None,
            Repr::HeapLatin1(ref b) => Some(rc_strong_count(b)),
            Repr::HeapUtf16(ref u) => Some(rc_strong_count(u)),
        }
    }

    /// Whether two strings hold the same code units.
    pub fn content_eq(&self, other: &JsString) -> (r: bool)
        ensures
            r == (self@ == other@),
    {
        let n = self.len();
        if n != other.len() {
            proof {
                assert(self@.len() != other@.len());
            }
            return false;
        }
        let mut i: usize = 0;
        while i < n
            invariant
                i <= n,
                n == self@.len(),
                n == other@.len(),
                forall|j: int| 0 <= j < i ==> self@[j] == other@[j],
            decreases n - i,
        {
            if self.unit_at(i) != other.unit_at(i) {
                return false;
            }
            i = i + 1;
        }
        proof {
            assert(self@ =~= other@);
        }
        true
    }

    /// Whether this string's units are the UTF-16 encoding of a string
    /// slice's characters.
    pub fn eq_str(&self, s: &str) -> (r: bool)
        ensures
            r == (self@ == utf16_of(s@)),
    {
        let other = JsString::from_str(s);
        self.content_eq(&other)
    }

    /// Whether two strings share one content allocation.
    ///
    /// Two static strings compare by content, as the engine keeps one tagged
    /// form per well-known name; two shared strings compare by allocation; a
    /// static and a shared string never compare equal.
    pub fn ptr_eq(&self, other: &JsString) -> (r: bool)
        ensures
            r ==> self@ == other@,
    {
        match (&self.repr, &other.repr) {
            (Repr::StaticLatin1(_), Repr::StaticLatin1(_))
            | (Repr::StaticLatin1(_), Repr::StaticUtf16(_))
            | (Repr::StaticUtf16(_), Repr::StaticLatin1(_))
            | (Repr::StaticUtf16(_), Repr::StaticUtf16(_)) => self.content_eq(other),
            (Repr::HeapLatin1(a), Repr::HeapLatin1(b)) => rc_ptr_eq(a, b),
            (Repr::HeapUtf16(a), Repr::HeapUtf16(b)) => rc_ptr_eq(a, b),
            _ => false,
        }
    }

    /// Concatenates two borrowed strings into a fresh shared string.
    ///
    /// The result keeps the latin-1 form when both operands have it.
    pub fn concat(x: JsStr<'_>, y: JsStr<'_>) -> (r: JsString)
        ensures
            r@ == x@ + y@,
            !r.is_static_spec(),
    {
        match (x, y) {
            (JsStr::Latin1(a), JsStr::Latin1(b)) => {
                let mut v: Vec<u8> = Vec::new();
                let mut i: usize = 0;
                while i < a.len()
                    invariant
                        i <= a@.len(),
                        v@ == a@.take(i as int),
                    decreases a@.len() - i,
                {
                    v.push(*slice_index_get(a, i));
                    assert(v@ =~= a@.take(i + 1));
                    i = i + 1;
                }
                assert(v@ =~= a@);
                let mut j: usize = 0;
                while j < b.len()
                    invariant
                        j <= b@.len(),
                        v@ == a@ + b@.take(j as int),
                    decreases b@.len() - j,
                {
                    v.push(*slice_index_get(b, j));
                    assert(v@ =~= a@ + b@.take(j + 1));
                    j = j + 1;
                }
                assert(v@ =~= a@ + b@);
                proof {
                    assert(lat1_units(a@ + b@) =~= lat1_units(a@) + lat1_units(b@));
                }
                JsString { repr: Repr::HeapLatin1(Rc::new(v)) }
            }
            (a, b) => {
                let mut v = a.to_units();
                let bu = b.to_units();
                let mut j: usize = 0;
                while j < bu.len()
                    invariant
                        j <= bu@.len(),
                        bu@ == b@,
                        v@ == a@ + b@.take(j as int),
                    decreases bu@.len() - j,
                {
                    v.push(bu[j]);
                    assert(v@ =~= a@ + b@.take(j + 1));
                    j = j + 1;
                }
                assert(v@ =~= a@ + b@);
                JsString { repr: Repr::HeapUtf16(Rc::new(v)) }
            }
        }
    }
}

impl Clone for JsString {
    /// The clone holds the same units; a shared string's clone shares its
    /// allocation, a static string's clone owns a copy.
    fn clone(&self) -> (res: Self)
        ensures
            res@ == self@,
            res.is_static_spec() == self.is_static_spec(),
            res.is_latin1_spec() == self.is_latin1_spec(),
    {
        match self.repr {
            Repr::StaticLatin1(ref b) => JsString { repr: Repr::StaticLatin1(copy_bytes(b)) },
            Repr::StaticUtf16(ref u) => JsString { repr: Repr::StaticUtf16(copy_units(u)) },
            Repr::HeapLatin1(ref b) => JsString { repr: Repr::HeapLatin1(rc_clone(b)) },
            Repr::HeapUtf16(ref u) => JsString { repr: Repr::HeapUtf16(rc_clone(u)) },
        }
    }
}

impl PartialEq for JsString {
    /// Strings compare by their code units.
    fn eq(&self, other: &JsString) -> (r: bool) {
        self.content_eq(other)
    }
}

impl vstd::std_specs::cmp::PartialEqSpecImpl for JsString {
    open spec fn obeys_eq_spec() -> bool {
        true
    }

    open spec fn eq_spec(&self, other: &JsString) -> bool {
        self@ == other@
    }
}

impl Eq for JsString {

}

/// A string whose content lives for the whole program, used for the
/// engine's well-known names.
#[derive(Debug)]
pub struct StaticJsString {
    content: JsString,
}

impl StaticJsString {
    /// The content record is always in static form.
    #[verifier::type_invariant]
    closed spec fn inv(self) -> bool {
        self.content.is_static_spec()
    }
}

impl View for StaticJsString {
    type V = Seq<u16>;

    /// The UTF-16 code units this static string stands for.
    closed spec fn view(&self) -> Seq<u16> {
        self.content@
    }
}

impl StaticJsString {
    /// Whether the content is held one byte per unit.
    pub closed spec fn is_latin1_spec(&self) -> bool {
        self.content.is_latin1_spec()
    }

    /// Makes a static string owning the given content.
    pub fn new(s: JsStr<'_>) -> (r: StaticJsString)
        ensures
            r@ == s@,
            r.is_latin1_spec() == s.is_latin1_spec(),
    {
        match s {
            JsStr::Latin1(b) => {
                let mut v: Vec<u8> = Vec::new();
                let mut i: usize = 0;
                while i < b.len()
                    invariant
                        i <= b@.len(),
                        v@ == b@.take(i as int),
                    decreases b@.len() - i,
                {
                    v.push(*slice_index_get(b, i));
                    assert(v@ =~= b@.take(i + 1));
                    i = i + 1;
                }
                assert(b@.take(b@.len() as int) =~= b@);
                assert(lat1_units(v@) =~= lat1_units(b@));
                StaticJsString { content: JsString { repr: Repr::StaticLatin1(v) } }
            }
            JsStr::Utf16(u) => {
                let mut v: Vec<u16> = Vec::new();
                let mut i: usize = 0;
                while i < u.len()
                    invariant
                        i <= u@.len(),
                        v@ == u@.take(i as int),
                    decreases u@.len() - i,
                {
                    v.push(*slice_index_get(u, i));
                    assert(v@ =~= u@.take(i + 1));
                    i = i + 1;
                }
                assert(u@.take(u@.len() as int) =~= u@);
                StaticJsString { content: JsString { repr: Repr::StaticUtf16(v) } }
            }
        }
    }
}

impl JsString {
    /// A static string sharing a program-lifetime content record.
    pub fn from_static_js_string(s: &StaticJsString) -> (r: JsString)
        ensures
            r@ == s@,
            r.is_static_spec(),
            r.is_latin1_spec() == s.is_latin1_spec(),
    {
        proof {
            use_type_invariant(s);
        }
        s.content.clone()
    }

    /// A static string holding the UTF-16 units of a string slice, in
    /// latin-1 form when every unit fits a byte.
    pub fn static_from_str(s: &str) -> (r: JsString)
        ensures
            r@ == utf16_of(s@),
            r.is_static_spec(),
    {
        let units = utf16_from_str(s);
        let mut all_latin1 = true;
        let mut i: usize = 0;
        while i < units.len()
            invariant
                i <= units@.len(),
                all_latin1 == forall|j: int| 0 <= j < i ==> units@[j] < 256,
            decreases units@.len() - i,
    {
            if units[i] > 255 {
                all_latin1 = false;
            }
            i = i + 1;
        }
        if all_latin1 {
            let mut v: Vec<u8> = Vec::new();
            let mut j: usize = 0;
            while j < units.len()
                invariant
                    j <= units@.len(),
                    forall|k: int| 0 <= k < units@.len() ==> units@[k] < 256,
                    v@.len() == j,
                    forall|k: int| 0 <= k < j ==> v@[k] == units@[k] as u8,
                decreases units@.len() - j,
            {
                v.push(units[j] as u8);
                j = j + 1;
            }
            proof {
                assert forall|k: int| 0 <= k < units@.len() implies lat1_units(v@)[k]
                    == units@[k] by {
                    assert(v@[k] == units@[k] as u8);
                    assert(units@[k] < 256);
                }
                assert(lat1_units(v@) =~= units@);
            }
            JsString { repr: Repr::StaticLatin1(v) }
        } else {
            JsString { repr: Repr::StaticUtf16(units) }
        }
    }
}

/// The engine's well-known static strings.
#[derive(Debug)]
pub struct StaticJsStrings {
}

impl StaticJsStrings {
    /// The empty string, in its static tagged form.
    pub fn empty_string() -> (r: JsString)
        ensures
            r@ == Seq::<u16>::empty(),
            r.is_static_spec(),
    {
        let v: Vec<u8> = Vec::new();
        assert(lat1_units(v@) =~= Seq::<u16>::empty());
        JsString { repr: Repr::StaticLatin1(v) }
    }
}


/// Whether a code unit is whitespace or a line terminator, as the language
/// defines them for trimming.
pub open spec fn is_trimmable(u: u16) -> bool {
    u == 0x9 || u == 0xA || u == 0xB || u == 0xC || u == 0xD || u == 0x20 || u == 0xA0 || u
        == 0x1680 || (0x2000 <= u && u <= 0x200A) || u == 0x2028 || u == 0x2029 || u == 0x202F
        || u == 0x205F || u == 0x3000 || u == 0xFEFF
}

/// Executable form of [`is_trimmable`].
pub fn is_trimmable_unit(u: u16) -> (r: bool)
    ensures
        r == is_trimmable(u),
{
    u == 0x9 || u == 0xA || u == 0xB || u == 0xC || u == 0xD || u == 0x20 || u == 0xA0 || u
        == 0x1680 || (0x2000 <= u && u <= 0x200A) || u == 0x2028 || u == 0x2029 || u == 0x202F
        || u == 0x205F || u == 0x3000 || u == 0xFEFF
}

/// The length of the leading run of trimmable units.
pub open spec fn ws_prefix_len(s: Seq<u16>) -> nat
    decreases s.len(),
{
    if s.len() > 0 && is_trimmable(s[0]) {
        1 + ws_prefix_len(s.drop_first())
    } else {
        0
    }
}

/// An index bounding a run of trimmable units from the start, whose own
/// unit is not trimmable (or which is the end), is the whitespace prefix
/// length.
pub proof fn lemma_ws_prefix_at(s: Seq<u16>, i: int)
    requires
        0 <= i <= s.len(),
        forall|j: int| 0 <= j < i ==> is_trimmable(#[trigger] s[j]),
        i == s.len() || !is_trimmable(s[i]),
    ensures
        ws_prefix_len(s) == i,
    decreases s.len(),
{
    if i == 0 {
    } else {
        assert(is_trimmable(s[0]));
        assert forall|j: int| 0 <= j < i - 1 implies is_trimmable(#[trigger] s.drop_first()[j])
            by {
            assert(s.drop_first()[j] == s[j + 1]);
        }
        if i - 1 < s.drop_first().len() {
            assert(s.drop_first()[i - 1] == s[i]);
        }
        lemma_ws_prefix_at(s.drop_first(), i - 1);
    }
}

impl JsString {
    /// The content with leading whitespace and line terminators removed,
    /// borrowed from this string.
    pub fn trim_start(&self) -> (r: JsStr<'_>)
        ensures
            r@ == self@.skip(ws_prefix_len(self@) as int),
            r.is_latin1_spec() == self.is_latin1_spec(),
    {
        let s = self.as_str();
        let n = s.len();
        let mut i: usize = 0;
        while i < n && is_trimmable_unit(s.get(i))
            invariant
                i <= n,
                n == s@.len(),
                forall|j: int| 0 <= j < i ==> is_trimmable(#[trigger] s@[j]),
            decreases n - i,
        {
            i = i + 1;
        }
        proof {
            lemma_ws_prefix_at(s@, i as int);
        }
        match s {
            JsStr::Latin1(b) => {
                let out = slice_subrange(b, i, b.len());
                proof {
                    assert forall|k: int| 0 <= k < out@.len() implies lat1_units(out@)[k]
                        == lat1_units(b@).skip(i as int)[k] by {
                        assert(out@[k] == b@[i + k]);
                    }
                    assert(lat1_units(out@) =~= lat1_units(b@).skip(i as int));
                }
                JsStr::Latin1(out)
            }
            JsStr::Utf16(u) => {
                let out = slice_subrange(u, i, u.len());
                proof {
                    assert(out@ =~= u@.skip(i as int));
                }
                JsStr::Utf16(out)
            }
        }
    }
}

/// The decimal digit units of a nonnegative integer.
pub open spec fn decimal_units(n: int) -> Seq<u16>
    decreases n,
{
    if n < 10 {
        seq![(0x30 + if n >= 0 { n } else { 0 }) as u16]
    } else {
        decimal_units(n / 10).push((0x30 + n % 10) as u16)
    }
}

/// The decimal units of a signed integer, with a leading minus sign when
/// negative.
pub open spec fn decimal_units_signed(n: int) -> Seq<u16> {
    if n < 0 {
        seq![0x2Du16] + decimal_units(-n)
    } else {
        decimal_units(n)
    }
}

/// Appends the decimal digits of `n`.
pub fn push_decimal(n: u64, out: &mut Vec<u16>)
    ensures
        final(out)@ == old(out)@ + decimal_units(n as int),
    decreases n,
{
    if n < 10 {
        out.push((0x30 + n) as u16);
        assert(out@ =~= old(out)@ + decimal_units(n as int));
    } else {
        push_decimal(n / 10, out);
        out.push((0x30 + (n % 10)) as u16);
        assert(out@ =~= old(out)@ + decimal_units(n as int));
    }
}

/// The decimal unit run of a signed integer.
pub fn decimal_of_i64(n: i64) -> (r: Vec<u16>)
    ensures
        r@ == decimal_units_signed(n as int),
{
    let mut out: Vec<u16> = Vec::new();
    if n < 0 {
        out.push(0x2D);
        let m: u64 = if n == i64::MIN {
            9223372036854775808u64
        } else {
            (-n) as u64
        };
        push_decimal(m, &mut out);
        assert(out@ =~= decimal_units_signed(n as int));
    } else {
        push_decimal(n as u64, &mut out);
        assert(out@ =~= decimal_units_signed(n as int));
    }
    out
}

} // verus!
