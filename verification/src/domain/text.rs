//! Text values that are trimmed and known to be non-empty once constructed.

use vstd::prelude::*;
use vstd::std_specs::convert::TryFromSpecImpl;

verus! {

/// The Unicode `White_Space` property: the characters that trimming removes.
pub open spec fn is_white_space(c: char) -> bool {
    let u = c as u32;
    ||| 0x09 <= u <= 0x0d
    ||| u == 0x20
    ||| u == 0x85
    ||| u == 0xa0
    ||| u == 0x1680
    ||| 0x2000 <= u <= 0x200a
    ||| u == 0x2028
    ||| u == 0x2029
    ||| u == 0x202f
    ||| u == 0x205f
    ||| u == 0x3000
}

/// `s` without its leading white space.
pub open spec fn trim_start(s: Seq<char>) -> Seq<char>
    decreases s.len(),
{
    if s.len() > 0 && is_white_space(s[0]) {
        trim_start(s.drop_first())
    } else {
        s
    }
}

/// `s` without its trailing white space.
pub open spec fn trim_end(s: Seq<char>) -> Seq<char>
    decreases s.len(),
{
    if s.len() > 0 && is_white_space(s.last()) {
        trim_end(s.drop_last())
    } else {
        s
    }
}

/// `s` without leading and trailing white space; inner characters are kept.
pub open spec fn trim(s: Seq<char>) -> Seq<char> {
    trim_end(trim_start(s))
}

/// A text that validation accepts as it stands: trimmed and non-empty.
pub open spec fn is_normalized(s: Seq<char>) -> bool {
    &&& s.len() > 0
    &&& !is_white_space(s[0])
    &&& !is_white_space(s.last())
}

/// Whether `c` has the Unicode `White_Space` property.
pub fn white_space(c: char) -> (r: bool)
    ensures
        r == is_white_space(c),
{
    let u = c as u32;
    (0x09 <= u && u <= 0x0d) || u == 0x20 || u == 0x85 || u == 0xa0 || u == 0x1680 || (0x2000
        <= u && u <= 0x200a) || u == 0x2028 || u == 0x2029 || u == 0x202f || u == 0x205f || u
        == 0x3000
}

/// A white space at position `i` is dropped by `trim_start` from the end of `s`
/// that starts there.
proof fn lemma_trim_start_skip(s: Seq<char>, i: int)
    requires
        0 <= i < s.len(),
        is_white_space(s[i]),
    ensures
        trim_start(s.subrange(i, s.len() as int)) == trim_start(s.subrange(i + 1, s.len() as int)),
{
    let t = s.subrange(i, s.len() as int);
    assert(t.drop_first() =~= s.subrange(i + 1, s.len() as int));
}

/// A white space at position `j - 1` is dropped by `trim_end` from the part of
/// `s` that ends there.
proof fn lemma_trim_end_skip(s: Seq<char>, a: int, j: int)
    requires
        0 <= a < j <= s.len(),
        is_white_space(s[j - 1]),
    ensures
        trim_end(s.subrange(a, j)) == trim_end(s.subrange(a, j - 1)),
{
    let t = s.subrange(a, j);
    assert(t.drop_last() =~= s.subrange(a, j - 1));
}

/// A trimmed, non-empty text is left unchanged by trimming.
pub proof fn lemma_trim_normalized(s: Seq<char>)
    requires
        is_normalized(s),
    ensures
        trim(s) == s,
{
}

/// What `trim_start` keeps is an end of `s` that starts with no white space.
proof fn lemma_trim_start_shape(s: Seq<char>)
    ensures
        trim_start(s).len() <= s.len(),
        trim_start(s) == s.subrange(s.len() - trim_start(s).len(), s.len() as int),
        trim_start(s).len() > 0 ==> !is_white_space(trim_start(s)[0]),
    decreases s.len(),
{
    if s.len() > 0 && is_white_space(s[0]) {
        lemma_trim_start_shape(s.drop_first());
        assert(trim_start(s) == trim_start(s.drop_first()));
        assert(s.drop_first().subrange(
            s.drop_first().len() - trim_start(s).len(),
            s.drop_first().len() as int,
        ) =~= s.subrange(s.len() - trim_start(s).len(), s.len() as int));
    } else {
        assert(s.subrange(0, s.len() as int) =~= s);
    }
}

/// What `trim_end` keeps is a start of `s` that ends with no white space.
proof fn lemma_trim_end_shape(s: Seq<char>)
    ensures
        trim_end(s).len() <= s.len(),
        trim_end(s) == s.subrange(0, trim_end(s).len() as int),
        trim_end(s).len() > 0 ==> !is_white_space(trim_end(s).last()),
    decreases s.len(),
{
    if s.len() > 0 && is_white_space(s.last()) {
        lemma_trim_end_shape(s.drop_last());
        assert(trim_end(s) == trim_end(s.drop_last()));
        assert(s.drop_last().subrange(0, trim_end(s).len() as int) =~= s.subrange(
            0,
            trim_end(s).len() as int,
        ));
    } else {
        assert(s.subrange(0, s.len() as int) =~= s);
    }
}

/// Trimming twice is trimming once, and what trimming leaves, when anything,
/// is a normalized text: a validated text given to validation again comes
/// back unchanged.
pub proof fn law_trim_idempotent(s: Seq<char>)
    ensures
        trim(trim(s)) == trim(s),
        trim(s).len() > 0 ==> is_normalized(trim(s)),
{
    let u = trim_start(s);
    let v = trim_end(u);
    lemma_trim_start_shape(s);
    lemma_trim_end_shape(u);
    if v.len() > 0 {
        assert(v[0] == u[0]);
        lemma_trim_normalized(v);
    } else {
        assert(trim_start(v) == v);
    }
}

/// The positions `(start, end)` that `trim` keeps of `s`.
fn trim_bounds(s: &str) -> (r: (usize, usize))
    ensures
        r.0 <= r.1 <= s@.len(),
        trim(s@) == s@.subrange(r.0 as int, r.1 as int),
        r.0 < r.1 ==> !is_white_space(s@[r.0 as int]) && !is_white_space(s@[r.1 - 1]),
{
    let n = s.unicode_len();
    let mut start: usize = 0;
    assert(s@.subrange(0, n as int) =~= s@);
    while start < n
        invariant
            start <= n,
            n == s@.len(),
            trim_start(s@) == trim_start(s@.subrange(start as int, n as int)),
        ensures
            start <= n,
            trim_start(s@) == trim_start(s@.subrange(start as int, n as int)),
            start < n ==> !is_white_space(s@[start as int]),
        decreases n - start,
    {
        let c = s.get_char(start);
        if !white_space(c) {
            break;
        }
        proof {
            lemma_trim_start_skip(s@, start as int);
        }
        start = start + 1;
    }
    let ghost front = trim_start(s@);
    assert(front == s@.subrange(start as int, n as int)) by {
        if start < n {
            assert(s@.subrange(start as int, n as int)[0] == s@[start as int]);
        }
    }
    let mut end: usize = n;
    while end > start
        invariant
            start <= end <= n,
            n == s@.len(),
            front == s@.subrange(start as int, n as int),
            trim_end(front) == trim_end(s@.subrange(start as int, end as int)),
        ensures
            start <= end <= n,
            trim_end(front) == trim_end(s@.subrange(start as int, end as int)),
            start < end ==> !is_white_space(s@[end - 1]),
        decreases end,
    {
        let c = s.get_char(end - 1);
        if !white_space(c) {
            break;
        }
        proof {
            lemma_trim_end_skip(s@, start as int, end as int);
        }
        end = end - 1;
    }
    let ghost kept = s@.subrange(start as int, end as int);
    if start < end {
        assert(kept.last() == s@[end - 1]);
        assert(kept[0] == s@[start as int]);
    } else {
        assert(kept.len() == 0);
    }
    (start, end)
}

/// The reason that a text was refused: nothing was left after trimming.
#[derive(Debug)]
pub struct InvalidText(&'static str);

impl View for InvalidText {
    type V = Seq<char>;

    closed spec fn view(&self) -> Seq<char> {
        self.0@
    }
}

impl InvalidText {
    /// The message, as the error's display text.
    pub fn to_string(&self) -> (r: String)
        ensures
            r@ == self@,
    {
        self.0.to_owned()
    }

    /// The message itself.
    pub fn message(&self) -> (r: &'static str)
        ensures
            r@ == self@,
    {
        self.0
    }
}

/// Trims `value` and refuses it, with `message`, when nothing is left.
pub fn normalize(value: String, message: &'static str) -> (r: Result<String, InvalidText>)
    ensures
        match r {
            Ok(text) => text@ == trim(value@) && is_normalized(text@),
            Err(e) => trim(value@).len() == 0 && e@ == message@,
        },
{
    let (start, end) = trim_bounds(value.as_str());
    if start == end {
        return Err(InvalidText(message));
    }
    let kept = value.as_str().substring_char(start, end);
    let text = kept.to_owned();
    assert(text@[0] == value@[start as int]);
    assert(text@.last() == value@[end - 1]);
    Ok(text)
}

/// A validated book title. The text inside cannot be changed.
#[derive(Debug, PartialEq, Eq)]
pub struct BookTitle(String);

impl View for BookTitle {
    type V = Seq<char>;

    closed spec fn view(&self) -> Seq<char> {
        self.0@
    }
}

impl BookTitle {
    #[verifier::type_invariant]
    closed spec fn normalized(self) -> bool {
        is_normalized(self.0@)
    }

    /// Borrows the validated text.
    pub fn as_str(&self) -> (r: &str)
        ensures
            r@ == self@,
            is_normalized(self@),
    {
        proof {
            use_type_invariant(self);
        }
        self.0.as_str()
    }

    /// Consumes the value and hands back the text it owns.
    pub fn into_inner(self) -> (r: String)
        ensures
            r@ == self@,
            is_normalized(r@),
    {
        proof {
            use_type_invariant(&self);
        }
        self.0
    }
}

impl Clone for BookTitle {
    fn clone(&self) -> (r: Self)
        ensures
            r == *self,
    {
        proof {
            use_type_invariant(self);
        }
        BookTitle(self.0.clone())
    }
}

impl TryFrom<String> for BookTitle {
    type Error = InvalidText;

    fn try_from(value: String) -> (r: Result<Self, InvalidText>)
        ensures
            match r {
                Ok(v) => v@ == trim(value@) && is_normalized(v@),
                Err(e) => trim(value@).len() == 0 && e@ == "title must not be empty"@,
            },
    {
        match normalize(value, "title must not be empty") {
            Ok(text) => Ok(BookTitle(text)),
            Err(e) => Err(e),
        }
    }
}

/// The contract of `try_from` is the `ensures` of the impl above; no spec
/// function builds the validated value.
impl TryFromSpecImpl<String> for BookTitle {
    open spec fn obeys_try_from_spec() -> bool {
        false
    }

    open spec fn try_from_spec(v: String) -> Result<Self, InvalidText> {
        arbitrary()
    }
}

/// A validated author name.
#[derive(Debug, PartialEq, Eq)]
pub struct Author(String);

impl View for Author {
    type V = Seq<char>;

    closed spec fn view(&self) -> Seq<char> {
        self.0@
    }
}

impl Author {
    #[verifier::type_invariant]
    closed spec fn normalized(self) -> bool {
        is_normalized(self.0@)
    }

    /// Borrows the validated text.
    pub fn as_str(&self) -> (r: &str)
        ensures
            r@ == self@,
            is_normalized(self@),
    {
        proof {
            use_type_invariant(self);
        }
        self.0.as_str()
    }

    /// Consumes the value and hands back the text it owns.
    pub fn into_inner(self) -> (r: String)
        ensures
            r@ == self@,
            is_normalized(r@),
    {
        proof {
            use_type_invariant(&self);
        }
        self.0
    }
}

impl Clone for Author {
    fn clone(&self) -> (r: Self)
        ensures
            r == *self,
    {
        proof {
            use_type_invariant(self);
        }
        Author(self.0.clone())
    }
}

impl TryFrom<String> for Author {
    type Error = InvalidText;

    fn try_from(value: String) -> (r: Result<Self, InvalidText>)
        ensures
            match r {
                Ok(v) => v@ == trim(value@) && is_normalized(v@),
                Err(e) => trim(value@).len() == 0 && e@ == "author must not be empty"@,
            },
    {
        match normalize(value, "author must not be empty") {
            Ok(text) => Ok(Author(text)),
            Err(e) => Err(e),
        }
    }
}

/// The contract of `try_from` is the `ensures` of the impl above; no spec
/// function builds the validated value.
impl TryFromSpecImpl<String> for Author {
    open spec fn obeys_try_from_spec() -> bool {
        false
    }

    open spec fn try_from_spec(v: String) -> Result<Self, InvalidText> {
        arbitrary()
    }
}

/// A validated note body. Line breaks and spaces inside the body are kept.
#[derive(Debug, PartialEq, Eq)]
pub struct NoteBody(String);

impl View for NoteBody {
    type V = Seq<char>;

    closed spec fn view(&self) -> Seq<char> {
        self.0@
    }
}

impl NoteBody {
    #[verifier::type_invariant]
    closed spec fn normalized(self) -> bool {
        is_normalized(self.0@)
    }

    /// Borrows the validated text.
    pub fn as_str(&self) -> (r: &str)
        ensures
            r@ == self@,
            is_normalized(self@),
    {
        proof {
            use_type_invariant(self);
        }
        self.0.as_str()
    }

    /// Consumes the value and hands back the text it owns.
    pub fn into_inner(self) -> (r: String)
        ensures
            r@ == self@,
            is_normalized(r@),
    {
        proof {
            use_type_invariant(&self);
        }
        self.0
    }
}

impl Clone for NoteBody {
    fn clone(&self) -> (r: Self)
        ensures
            r == *self,
    {
        proof {
            use_type_invariant(self);
        }
        NoteBody(self.0.clone())
    }
}

impl TryFrom<String> for NoteBody {
    type Error = InvalidText;

    fn try_from(value: String) -> (r: Result<Self, InvalidText>)
        ensures
            match r {
                Ok(v) => v@ == trim(value@) && is_normalized(v@),
                Err(e) => trim(value@).len() == 0 && e@ == "note body must not be empty"@,
            },
    {
        match normalize(value, "note body must not be empty") {
            Ok(text) => Ok(NoteBody(text)),
            Err(e) => Err(e),
        }
    }
}

/// The contract of `try_from` is the `ensures` of the impl above; no spec
/// function builds the validated value.
impl TryFromSpecImpl<String> for NoteBody {
    open spec fn obeys_try_from_spec() -> bool {
        false
    }

    open spec fn try_from_spec(v: String) -> Result<Self, InvalidText> {
        arbitrary()
    }
}

} // verus!
