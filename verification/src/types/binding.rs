//! Surface names and the unique heap keys mangled from them.
//!
//! A `Binding` is the name a value goes by in the program. A `UniqueBinding`
//! is the key under which the value's payload lives on the heap: the surface
//! name wrapped in fixed markers and followed by a fresh identifier.

use crate::assoc::KeyEq;
use vstd::prelude::*;
use vstd::std_specs::cmp::PartialEqSpecImpl;
use vstd::string::StringExecFns;
use vstd::string::StrSliceExecFns;

verus! {

/// What opens a mangled name.
pub open spec fn mangle_prefix() -> Seq<char> {
    seq!['%', '-', '-', '-']
}

/// What stands between the surface name and the identifier in a mangled name.
pub open spec fn mangle_infix() -> Seq<char> {
    seq!['-', '-', '-', '%']
}

/// The mangled form of `name` under the identifier `id`.
pub open spec fn mangled(name: Seq<char>, id: Seq<char>) -> Seq<char> {
    mangle_prefix() + name + mangle_infix() + id
}

/// The surface name given to values that have none of their own.
pub open spec fn anon_marker() -> Seq<char> {
    seq!['>', 'a', 'n', 'o', 'n', '_', 'j', 's', '_', 'v', 'a', 'r', '<']
}

/// A digit of lower-case hexadecimal.
pub open spec fn is_lower_hex(c: char) -> bool {
    ('0' <= c && c <= '9') || ('a' <= c && c <= 'f')
}

/// The shape of a fresh identifier: 32 digits of lower-case hexadecimal.
pub open spec fn is_fresh_id(id: Seq<char>) -> bool {
    &&& id.len() == 32
    &&& forall|i: int| 0 <= i < id.len() ==> is_lower_hex(#[trigger] id[i])
}

/// `s` is `name` mangled under some fresh identifier.
pub open spec fn is_mangling_of(s: Seq<char>, name: Seq<char>) -> bool {
    exists|id: Seq<char>| is_fresh_id(id) && s == #[trigger] mangled(name, id)
}

/// `needle` occurs in `hay` as a contiguous run, starting at `at`.
pub open spec fn occurs_at(hay: Seq<char>, needle: Seq<char>, at: int) -> bool {
    &&& 0 <= at
    &&& at + needle.len() <= hay.len()
    &&& hay.subrange(at, at + needle.len()) == needle
}

/// `needle` occurs somewhere in `hay` as a contiguous run.
pub open spec fn contains_run(hay: Seq<char>, needle: Seq<char>) -> bool {
    exists|at: int| occurs_at(hay, needle, at)
}

/// A mangled name holds its surface name, four characters in.
pub proof fn lemma_mangled_holds_name(name: Seq<char>, id: Seq<char>)
    ensures
        occurs_at(mangled(name, id), name, 4),
        contains_run(mangled(name, id), name),
{
    let m = mangled(name, id);
    assert(m.subrange(4, 4 + name.len() as int) =~= name);
    assert(occurs_at(m, name, 4));
}

/// Whether `needle` matches `hay` at the character offset `at`.
fn matches_at(hay: &str, needle: &str, at: usize, hay_len: usize, needle_len: usize) -> (r: bool)
    requires
        hay_len == hay@.len(),
        needle_len == needle@.len(),
        at + needle_len <= hay_len,
    ensures
        r == occurs_at(hay@, needle@, at as int),
{
    let mut j: usize = 0;
    while j < needle_len
        invariant
            hay_len == hay@.len(),
            needle_len == needle@.len(),
            at + needle_len <= hay_len,
            j <= needle_len,
            forall|k: int| 0 <= k < j ==> hay@[at + k] == needle@[k],
        decreases needle_len - j,
    {
        if hay.get_char(at + j) != needle.get_char(j) {
            proof {
                let run = hay@.subrange(at as int, at + needle_len);
                assert(run[j as int] == hay@[at + j]);
            }
            return false;
        }
        j = j + 1;
    }
    assert(hay@.subrange(at as int, at + needle_len) =~= needle@);
    true
}

/// Whether `needle` occurs in `hay` as a contiguous run of characters.
///
/// The search is the plain one: every offset is tried in turn, and reading a
/// character costs a walk from the start of the string.
pub fn contains_text(hay: &str, needle: &str) -> (r: bool)
    ensures
        r == contains_run(hay@, needle@),
{
    let hay_len = hay.unicode_len();
    let needle_len = needle.unicode_len();
    if needle_len == 0 {
        assert(hay@.subrange(0, 0) =~= needle@);
        assert(occurs_at(hay@, needle@, 0));
        return true;
    }
    if needle_len > hay_len {
        return false;
    }
    let last = hay_len - needle_len;
    let mut at: usize = 0;
    while at <= last
        invariant
            hay_len == hay@.len(),
            needle_len == needle@.len(),
            0 < needle_len <= hay_len,
            last == hay_len - needle_len,
            at <= last + 1,
            forall|k: int| 0 <= k < at ==> !occurs_at(hay@, needle@, k),
        decreases last + 1 - at,
    {
        if matches_at(hay, needle, at, hay_len, needle_len) {
            return true;
        }
        at = at + 1;
    }
    false
}

/// Asks `uuid::Uuid::new_v4` for a random identifier and renders it with
/// `uuid::Uuid::simple`, whose text is the identifier's 16 bytes as 32 digits
/// of lower-case hexadecimal with no separators. Which digits come back is
/// left open: two calls need not agree.
///
/// The outside call fails hard if the operating system yields no random
/// bytes.
#[verifier::external_body]
fn fresh_id() -> (r: String)
    ensures
        is_fresh_id(r@),
{
    uuid::Uuid::new_v4().simple().to_string()
}

/// Builds the mangled form of `name` under the identifier `id`.
pub fn mangle_with(name: &str, id: &str) -> (r: String)
    ensures
        r@ == mangled(name@, id@),
{
    proof {
        reveal_strlit("%---");
        reveal_strlit("---%");
    }
    let mut s = String::from_str("%---");
    s.append(name);
    s.append("---%");
    s.append(id);
    assert("%---"@ =~= mangle_prefix());
    assert("---%"@ =~= mangle_infix());
    s
}

/// Mangles `name` under a fresh identifier.
fn mangle_fresh(name: &str) -> (r: String)
    ensures
        is_mangling_of(r@, name@),
{
    let id = fresh_id();
    let r = mangle_with(name, id.as_str());
    assert(is_fresh_id(id@) && r@ == mangled(name@, id@));
    r
}

/// Mangles the anonymous name under a fresh identifier.
fn mangle_anon() -> (r: String)
    ensures
        is_mangling_of(r@, anon_marker()),
        contains_run(r@, anon_marker()),
{
    proof {
        reveal_strlit(">anon_js_var<");
        assert(">anon_js_var<"@ =~= anon_marker());
    }
    let r = mangle_fresh(">anon_js_var<");
    proof {
        let id = choose|id: Seq<char>| is_fresh_id(id) && r@ == #[trigger] mangled(anon_marker(), id);
        lemma_mangled_holds_name(anon_marker(), id);
    }
    r
}

/// Whether `text` holds the anonymous name.
fn holds_anon_marker(text: &str) -> (r: bool)
    ensures
        r == contains_run(text@, anon_marker()),
{
    proof {
        reveal_strlit(">anon_js_var<");
        assert(">anon_js_var<"@ =~= anon_marker());
    }
    contains_text(text, ">anon_js_var<")
}

/// The name a value goes by in the program.
#[derive(Debug, Eq, Hash)]
pub struct Binding(pub String);

impl View for Binding {
    type V = Seq<char>;

    open spec fn view(&self) -> Seq<char> {
        self.0@
    }
}

impl Clone for Binding {
    fn clone(&self) -> (r: Self)
        ensures
            r == *self,
    {
        Binding(self.0.clone())
    }
}

impl PartialEq for Binding {
    fn eq(&self, other: &Self) -> (r: bool) {
        self.0 == other.0
    }
}

impl PartialEqSpecImpl for Binding {
    open spec fn obeys_eq_spec() -> bool {
        true
    }

    open spec fn eq_spec(&self, other: &Self) -> bool {
        self.0@ == other.0@
    }
}

impl Binding {
    /// Whether the name holds the anonymous marker. This is a test on the
    /// text, so a name chosen to contain the marker counts as anonymous.
    pub open spec fn is_anon_spec(&self) -> bool {
        contains_run(self@, anon_marker())
    }

    /// The name `s`.
    pub fn new(s: String) -> (r: Self)
        ensures
            r.0 == s,
    {
        Binding(s)
    }

    /// A name made from `b` by wrapping it and appending a fresh identifier.
    pub fn mangle(b: &Self) -> (r: Self)
        ensures
            is_mangling_of(r@, b@),
    {
        Binding(mangle_fresh(b.0.as_str()))
    }

    /// A fresh name for a value that has none.
    pub fn anon() -> (r: Self)
        ensures
            is_mangling_of(r@, anon_marker()),
            r.is_anon_spec(),
    {
        Binding(mangle_anon())
    }

    #[verifier::when_used_as_spec(is_anon_spec)]
    pub fn is_anon(&self) -> (r: bool)
        ensures
            r == self.is_anon_spec(),
    {
        holds_anon_marker(self.0.as_str())
    }

    /// The name as text.
    pub fn var_name(&self) -> (r: &str)
        ensures
            r@ == self@,
    {
        self.0.as_str()
    }

    /// The name as text.
    pub fn to_string(&self) -> (r: String)
        ensures
            r@ == self@,
    {
        self.0.clone()
    }
}

/// The unique key under which one heap payload is stored.
#[derive(Debug, Eq, Hash)]
pub struct UniqueBinding(pub String);

impl View for UniqueBinding {
    type V = Seq<char>;

    open spec fn view(&self) -> Seq<char> {
        self.0@
    }
}

impl Clone for UniqueBinding {
    fn clone(&self) -> (r: Self)
        ensures
            r == *self,
    {
        UniqueBinding(self.0.clone())
    }
}

impl PartialEq for UniqueBinding {
    fn eq(&self, other: &Self) -> (r: bool) {
        self.0 == other.0
    }
}

impl PartialEqSpecImpl for UniqueBinding {
    open spec fn obeys_eq_spec() -> bool {
        true
    }

    open spec fn eq_spec(&self, other: &Self) -> bool {
        self.0@ == other.0@
    }
}

impl KeyEq for UniqueBinding {
    fn key_eq(&self, other: &Self) -> (r: bool) {
        self.0 == other.0
    }
}

impl UniqueBinding {
    /// Whether the key holds the anonymous marker. This is a test on the
    /// text, so a key mangled from a name that contains the marker counts as
    /// anonymous.
    pub open spec fn is_anon_spec(&self) -> bool {
        contains_run(self@, anon_marker())
    }

    /// The key with the text `s`.
    pub fn new(s: String) -> (r: Self)
        ensures
            r.0 == s,
    {
        UniqueBinding(s)
    }

    /// A key made from the surface name `b` and a fresh identifier.
    pub fn mangle(b: &Binding) -> (r: Self)
        ensures
            is_mangling_of(r@, b@),
    {
        UniqueBinding(mangle_fresh(b.0.as_str()))
    }

    /// A key made from the surface name `s` and a fresh identifier.
    pub fn mangle_str(s: &str) -> (r: Self)
        ensures
            is_mangling_of(r@, s@),
    {
        UniqueBinding(mangle_fresh(s))
    }

    /// A key made from the surface name `s` and the identifier `id`, for
    /// callers that bring their own source of identifiers.
    pub fn mangle_with_id(s: &str, id: &str) -> (r: Self)
        ensures
            r@ == mangled(s@, id@),
    {
        UniqueBinding(mangle_with(s, id))
    }

    /// A fresh key for a value that has no surface name.
    pub fn anon() -> (r: Self)
        ensures
            is_mangling_of(r@, anon_marker()),
            r.is_anon_spec(),
    {
        UniqueBinding(mangle_anon())
    }

    #[verifier::when_used_as_spec(is_anon_spec)]
    pub fn is_anon(&self) -> (r: bool)
        ensures
            r == self.is_anon_spec(),
    {
        holds_anon_marker(self.0.as_str())
    }

    /// The empty key: a placeholder for a value whose real key is not yet
    /// assigned. It is never a live heap key.
    pub fn dummy() -> (r: Self)
        ensures
            r@ == Seq::<char>::empty(),
    {
        UniqueBinding(String::new())
    }

    /// The key as text.
    pub fn to_string(&self) -> (r: String)
        ensures
            r@ == self@,
    {
        self.0.clone()
    }
}

} // verus!
