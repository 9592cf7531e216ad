//! The command tokenizer.
//!
//! One raw input line becomes two parallel token sequences of equal length:
//! the raw tokens (whitespace-split, original case, used for user-supplied
//! identifiers) and the normalized tokens (the same tokens lower-cased, used
//! for verb and structural-keyword matching). Indexed access past the number
//! of typed tokens yields an explicit absent value, never an error.

use vstd::prelude::*;
use vstd::string::StrSliceExecFns;

verus! {

/// The whitespace characters that separate tokens.
pub open spec fn is_space(c: char) -> bool {
    c == ' ' || c == '\t' || c == '\n' || c == '\r'
}

/// Executable test for [`is_space`].
pub fn space_char(c: char) -> (r: bool)
    ensures
        r == is_space(c),
{
    c == ' ' || c == '\t' || c == '\n' || c == '\r'
}

/// The ASCII lower-case fold of one character.
pub open spec fn lower_char(c: char) -> char {
    if 'A' <= c && c <= 'Z' {
        (((c as u8) + 0x20) as char)
    } else {
        c
    }
}

/// The ASCII lower-case fold of a character sequence.
pub open spec fn lower_chars(s: Seq<char>) -> Seq<char> {
    s.map_values(|c: char| lower_char(c))
}

/// The token sequence of `s` when a (possibly empty) current token `cur` has
/// already been read: tokens are the maximal runs of non-whitespace.
pub open spec fn spec_tokens_acc(s: Seq<char>, cur: Seq<char>) -> Seq<Seq<char>>
    decreases s.len(),
{
    if s.len() == 0 {
        if cur.len() == 0 {
            Seq::empty()
        } else {
            seq![cur]
        }
    } else if is_space(s[0]) {
        if cur.len() == 0 {
            spec_tokens_acc(s.drop_first(), Seq::empty())
        } else {
            seq![cur] + spec_tokens_acc(s.drop_first(), Seq::empty())
        }
    } else {
        spec_tokens_acc(s.drop_first(), cur.push(s[0]))
    }
}

/// The whitespace-split tokens of a line, in order.
pub open spec fn spec_tokens(s: Seq<char>) -> Seq<Seq<char>> {
    spec_tokens_acc(s, Seq::empty())
}

/// String equality, decided character by character.
pub fn str_eq(a: &str, b: &str) -> (r: bool)
    ensures
        r == (a@ == b@),
{
    let alen = a.unicode_len();
    let blen = b.unicode_len();
    if alen != blen {
        return false;
    }
    let mut i: usize = 0;
    while i < alen
        invariant
            alen == a@.len(),
            alen == b@.len(),
            i <= alen,
            forall|j: int| 0 <= j < i ==> a@[j] == b@[j],
        decreases alen - i,
    {
        if a.get_char(i) != b.get_char(i) {
            return false;
        }
        i += 1;
    }
    proof {
        assert(a@ =~= b@);
    }
    true
}

/// Relies on `str::to_ascii_lowercase`: ASCII letters 'A' to 'Z' are mapped
/// to 'a' to 'z'; every other character is unchanged.
#[verifier::external_body]
fn to_ascii_lower(s: &str) -> (r: String)
    ensures
        r@ == lower_chars(s@),
{
    s.to_ascii_lowercase()
}

/// `s.skip(i)` loses its first element to become `s.skip(i + 1)`.
proof fn lemma_skip_succ(s: Seq<char>, i: int)
    requires
        0 <= i < s.len(),
    ensures
        s.skip(i).len() == s.len() - i,
        s.skip(i)[0] == s[i],
        s.skip(i).drop_first() =~= s.skip(i + 1),
{
}

/// Splits a line into its whitespace-separated tokens, in order.
pub fn split_tokens(line: &str) -> (toks: Vec<String>)
    ensures
        toks.deep_view() == spec_tokens(line@),
{
    let n = line.unicode_len();
    let mut toks: Vec<String> = Vec::new();
    let mut i: usize = 0;
    proof {
        assert(line@.skip(0) =~= line@);
        assert(toks.deep_view() =~= Seq::<Seq<char>>::empty());
    }
    while i < n
        invariant
            n == line@.len(),
            i <= n,
            toks.deep_view() + spec_tokens_acc(line@.skip(i as int), Seq::empty())
                =~= spec_tokens(line@),
        decreases n - i,
    {
        if space_char(line.get_char(i)) {
            proof {
                lemma_skip_succ(line@, i as int);
                assert(spec_tokens_acc(line@.skip(i as int), Seq::empty())
                    == spec_tokens_acc(line@.skip(i + 1), Seq::empty()));
            }
            i += 1;
        } else {
            let start = i;
            proof {
                lemma_skip_succ(line@, i as int);
                assert(Seq::<char>::empty().push(line@[i as int])
                    =~= line@.subrange(i as int, i + 1));
                assert(spec_tokens_acc(line@.skip(i as int), Seq::empty())
                    == spec_tokens_acc(line@.skip(i + 1), line@.subrange(i as int, i + 1)));
            }
            i += 1;
            while i < n && !space_char(line.get_char(i))
                invariant
                    n == line@.len(),
                    start < i <= n,
                    spec_tokens_acc(line@.skip(start as int), Seq::empty())
                        == spec_tokens_acc(
                        line@.skip(i as int),
                        line@.subrange(start as int, i as int),
                    ),
                decreases n - i,
            {
                proof {
                    lemma_skip_succ(line@, i as int);
                    assert(line@.subrange(start as int, i as int).push(line@[i as int])
                        =~= line@.subrange(start as int, i + 1));
                    assert(spec_tokens_acc(
                        line@.skip(i as int),
                        line@.subrange(start as int, i as int),
                    ) == spec_tokens_acc(line@.skip(i + 1), line@.subrange(start as int, i + 1)));
                }
                i += 1;
            }
            let ghost cur = line@.subrange(start as int, i as int);
            proof {
                assert(cur.len() > 0);
                if i < n {
                    lemma_skip_succ(line@, i as int);
                    assert(spec_tokens_acc(line@.skip(i as int), cur)
                        == seq![cur] + spec_tokens_acc(line@.skip(i + 1), Seq::empty()));
                    assert(spec_tokens_acc(line@.skip(i as int), Seq::empty())
                        == spec_tokens_acc(line@.skip(i + 1), Seq::empty()));
                } else {
                    assert(line@.skip(i as int) =~= Seq::<char>::empty());
                    assert(spec_tokens_acc(line@.skip(i as int), cur) == seq![cur]);
                    assert(spec_tokens_acc(line@.skip(i as int), Seq::empty())
                        =~= Seq::<Seq<char>>::empty());
                }
                assert(spec_tokens_acc(line@.skip(start as int), Seq::empty())
                    =~= seq![cur] + spec_tokens_acc(line@.skip(i as int), Seq::empty()));
            }
            let tok = line.substring_char(start, i).to_owned();
            let ghost pre = toks.deep_view();
            toks.push(tok);
            proof {
                assert(toks.deep_view() =~= pre.push(cur));
                assert(pre.push(cur) + spec_tokens_acc(line@.skip(i as int), Seq::empty())
                    =~= pre + (seq![cur] + spec_tokens_acc(line@.skip(i as int), Seq::empty())));
                assert(toks.deep_view() + spec_tokens_acc(line@.skip(i as int), Seq::empty())
                    =~= spec_tokens(line@));
            }
        }
    }
    proof {
        assert(line@.skip(n as int) =~= Seq::<char>::empty());
        assert(toks.deep_view() =~= spec_tokens(line@));
    }
    toks
}

/// The normalized form of token `i` of a token sequence.
pub open spec fn norm_of(toks: Seq<Seq<char>>, i: int) -> Seq<char> {
    lower_chars(toks[i])
}

/// Whether a token was typed at position `i`.
pub open spec fn has_tok(toks: Seq<Seq<char>>, i: int) -> bool {
    0 <= i < toks.len()
}

/// Whether the token at position `i` exists and normalizes to `k`.
pub open spec fn norm_is(toks: Seq<Seq<char>>, i: int, k: Seq<char>) -> bool {
    0 <= i < toks.len() && lower_chars(toks[i]) == k
}

/// Whether some typed token normalizes to `k`.
pub open spec fn some_norm_is(toks: Seq<Seq<char>>, k: Seq<char>) -> bool {
    exists|i: int| norm_is(toks, i, k)
}

/// The result of tokenizing one input line: an ordered sequence of raw
/// tokens (original case) and, in parallel, their normalized (lower-cased)
/// forms. Its view is the sequence of raw tokens; the normalized form of a
/// token is determined by it.
///
/// Reads past the number of typed tokens yield `None`, an explicit absent
/// value, never an error.
pub struct Command {
    norm: Vec<String>,
    raw: Vec<String>,
}

impl View for Command {
    type V = Seq<Seq<char>>;

    closed spec fn view(&self) -> Seq<Seq<char>> {
        self.raw.deep_view()
    }
}

impl Command {
    #[verifier::type_invariant]
    spec fn wf(self) -> bool {
        &&& self.norm@.len() == self.raw@.len()
        &&& forall|i: int|
            0 <= i < self.raw@.len() ==> (#[trigger] self.norm@[i])@ == lower_chars(
                self.raw@[i]@,
            )
    }

    /// Tokenizes one raw input line.
    pub fn tokenize(line: &str) -> (c: Command)
        ensures
            c@ == spec_tokens(line@),
    {
        let raw = split_tokens(line);
        let mut norm: Vec<String> = Vec::new();
        let mut i: usize = 0;
        while i < raw.len()
            invariant
                norm@.len() == i,
                i <= raw@.len(),
                forall|j: int|
                    0 <= j < i ==> (#[trigger] norm@[j])@ == lower_chars(raw@[j]@),
            decreases raw@.len() - i,
        {
            norm.push(to_ascii_lower(raw[i].as_str()));
            i += 1;
        }
        let c = Command { norm, raw };
        proof {
            assert(c@ =~= spec_tokens(line@));
        }
        c
    }

    /// The number of tokens actually typed.
    pub fn len(&self) -> (n: usize)
        ensures
            n == self@.len(),
    {
        proof {
            use_type_invariant(self);
        }
        self.raw.len()
    }

    /// The raw token at position `i`, or `None` past the typed length.
    pub fn raw_at(&self, i: usize) -> (r: Option<&String>)
        ensures
            match r {
                Some(t) => i < self@.len() && t@ == self@[i as int],
                None => i >= self@.len(),
            },
    {
        proof {
            use_type_invariant(self);
        }
        if i < self.raw.len() {
            Some(&self.raw[i])
        } else {
            None
        }
    }

    /// The normalized token at position `i`, or `None` past the typed length.
    pub fn norm_at(&self, i: usize) -> (r: Option<&String>)
        ensures
            match r {
                Some(t) => i < self@.len() && t@ == norm_of(self@, i as int),
                None => i >= self@.len(),
            },
    {
        proof {
            use_type_invariant(self);
        }
        if i < self.norm.len() {
            Some(&self.norm[i])
        } else {
            None
        }
    }

    /// Whether the token at position `i` exists and normalizes to `kw`.
    /// An absent token matches no keyword.
    pub fn norm_is(&self, i: usize, kw: &str) -> (r: bool)
        ensures
            r == norm_is(self@, i as int, kw@),
    {
        match self.norm_at(i) {
            Some(t) => str_eq(t.as_str(), kw),
            None => false,
        }
    }

    /// Whether some typed token normalizes to `kw`.
    pub fn has_norm(&self, kw: &str) -> (r: bool)
        ensures
            r == some_norm_is(self@, kw@),
    {
        proof {
            use_type_invariant(self);
        }
        let mut i: usize = 0;
        let n = self.raw.len();
        while i < n
            invariant
                n == self@.len(),
                i <= n,
                self.wf(),
                forall|j: int| 0 <= j < i ==> !norm_is(self@, j, kw@),
            decreases n - i,
        {
            if self.norm_is(i, kw) {
                return true;
            }
            i += 1;
        }
        false
    }
}

} // verus!
