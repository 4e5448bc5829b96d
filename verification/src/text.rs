//! Output that may hold numbers.
//!
//! The library does not turn a number into digits: that is floating-point
//! work, which belongs to the host. So what the library prints is a
//! sequence of pieces, each a run of text or a number still to be printed,
//! and the host joins the pieces, rendering each number as it sees fit.

use crate::types::number::JsNumber;
use vstd::prelude::*;
use vstd::string::StringExecFns;

verus! {

/// One item of output: a character, or a number still to be printed.
pub enum Glyph {
    Char(char),
    Number(JsNumber),
}

/// The character `c` as an item of output.
pub open spec fn glyph(c: char) -> Glyph {
    Glyph::Char(c)
}

/// The characters of `s` as output.
pub open spec fn chars(s: Seq<char>) -> Seq<Glyph> {
    Seq::new(s.len(), |i: int| glyph(s[i]))
}

/// The number `n` as output.
pub open spec fn number(n: JsNumber) -> Seq<Glyph> {
    seq![Glyph::Number(n)]
}

/// `n` spaces as output; nothing if `n` is not positive.
pub open spec fn spaces(n: int) -> Seq<Glyph> {
    Seq::new(
        if n < 0 {
            0
        } else {
            n as nat
        },
        |i: int| glyph(' '),
    )
}

/// One piece of output.
#[derive(Debug)]
pub enum Piece {
    Text(String),
    Number(JsNumber),
}

impl View for Piece {
    type V = Seq<Glyph>;

    open spec fn view(&self) -> Seq<Glyph> {
        match self {
            Piece::Text(s) => chars(s@),
            Piece::Number(n) => number(*n),
        }
    }
}

/// The output that a list of pieces stands for.
pub open spec fn joined(pieces: Seq<Piece>) -> Seq<Glyph>
    decreases pieces.len(),
{
    if pieces.len() == 0 {
        Seq::empty()
    } else {
        joined(pieces.drop_last()) + pieces.last()@
    }
}

/// Pieces after pieces stand for the output of both.
pub proof fn lemma_joined_add(a: Seq<Piece>, b: Seq<Piece>)
    ensures
        joined(a + b) == joined(a) + joined(b),
    decreases b.len(),
{
    if b.len() == 0 {
        assert(a + b =~= a);
        assert(joined(a) + joined(b) =~= joined(a));
    } else {
        lemma_joined_add(a, b.drop_last());
        assert((a + b).drop_last() =~= a + b.drop_last());
        assert((a + b).last() == b.last());
        assert(joined(a + b) =~= joined(a) + joined(b));
    }
}

/// Output under construction.
#[derive(Debug)]
pub struct Rendering {
    pub pieces: Vec<Piece>,
}

impl View for Rendering {
    type V = Seq<Glyph>;

    open spec fn view(&self) -> Seq<Glyph> {
        joined(self.pieces@)
    }
}

impl Rendering {
    /// No output yet.
    pub fn new() -> (r: Rendering)
        ensures
            r@ == Seq::<Glyph>::empty(),
    {
        Rendering { pieces: Vec::new() }
    }

    /// Appends the text `s`.
    pub fn push_str(&mut self, s: &str)
        ensures
            final(self)@ == old(self)@ + chars(s@),
    {
        let ghost before = self.pieces@;
        self.pieces.push(Piece::Text(String::from_str(s)));
        assert(self.pieces@.drop_last() =~= before);
    }

    /// Appends the text `s`.
    pub fn push_string(&mut self, s: String)
        ensures
            final(self)@ == old(self)@ + chars(s@),
    {
        let ghost before = self.pieces@;
        self.pieces.push(Piece::Text(s));
        assert(self.pieces@.drop_last() =~= before);
    }

    /// Appends the number `n`, to be printed by the host.
    pub fn push_number(&mut self, n: JsNumber)
        ensures
            final(self)@ == old(self)@ + number(n),
    {
        let ghost before = self.pieces@;
        self.pieces.push(Piece::Number(n));
        assert(self.pieces@.drop_last() =~= before);
    }

    /// Moves the pieces of `other` to the end of this output.
    pub fn append(&mut self, other: &mut Rendering)
        ensures
            final(self)@ == old(self)@ + old(other)@,
            final(other)@ == Seq::<Glyph>::empty(),
    {
        proof {
            lemma_joined_add(self.pieces@, other.pieces@);
        }
        self.pieces.append(&mut other.pieces);
    }

    /// Appends `n` spaces; none if `n` is not positive.
    pub fn push_spaces(&mut self, n: i32)
        ensures
            final(self)@ == old(self)@ + spaces(n as int),
    {
        let ghost start = self@;
        let mut pad = String::new();
        let mut i: i32 = 0;
        while i < n
            invariant
                0 <= i,
                i <= n || n < 0,
                n < 0 ==> i == 0,
                pad@ == Seq::new(i as nat, |j: int| ' '),
            decreases n - i,
        {
            proof {
                reveal_strlit(" ");
            }
            let ghost before = pad@;
            pad.append(" ");
            assert(pad@ =~= Seq::new((i + 1) as nat, |j: int| ' ')) by {
                assert(" "@ =~= seq![' ']);
            }
            i = i + 1;
        }
        assert(chars(pad@) =~= spaces(n as int)) by {
            let l = chars(pad@);
            let r = spaces(n as int);
            assert(l.len() == r.len());
            assert forall|j: int| 0 <= j < l.len() implies l[j] == r[j] by {
                assert(pad@[j] == ' ');
            }
        }
        self.push_string(pad);
    }
}

/// A single run of text as output.
pub fn text_of(s: &str) -> (r: Rendering)
    ensures
        r@ == chars(s@),
{
    let mut r = Rendering::new();
    r.push_str(s);
    assert(Seq::<Glyph>::empty() + chars(s@) =~= chars(s@));
    r
}

} // verus!
