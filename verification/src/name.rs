//! The composite name codec: an ordered (first, last) pair of text tokens to
//! and from a single space-delimited string.
//!
//! Encoding joins the two tokens with exactly one interior space and never
//! fails; if a token itself contains a space the result is ambiguous on
//! decode, an accepted limitation. Decoding splits on the space character
//! and fails with a [`CodecError::FormatError`] unless the split yields
//! exactly two tokens.

use crate::error::CodecError;
use vstd::prelude::*;

verus! {

/// An ordered pair of name tokens.
#[derive(Debug, Clone)]
pub struct Name {
    /// The leading token.
    pub first: String,
    /// The trailing token.
    pub last: String,
}

/// How many space characters a text holds.
pub open spec fn space_count(s: Seq<char>) -> nat
    decreases s.len(),
{
    if s.len() == 0 {
        0
    } else {
        space_count(s.drop_last()) + (if s.last() == ' ' {
            1nat
        } else {
            0nat
        })
    }
}

/// How many tokens splitting a text on the space character yields: always
/// one more than the number of separators.
pub open spec fn token_count(s: Seq<char>) -> nat {
    space_count(s) + 1
}

/// The wire text a (first, last) pair encodes to: the first token, one
/// space, the last token.
pub open spec fn encoded_name(first: Seq<char>, last: Seq<char>) -> Seq<char> {
    first + seq![' '] + last
}

/// `first` and `last` are the two tokens of `s`: they reassemble it around
/// a single interior space and hold no space themselves.
pub open spec fn is_split(s: Seq<char>, first: Seq<char>, last: Seq<char>) -> bool {
    &&& s == first + seq![' '] + last
    &&& !first.contains(' ')
    &&& !last.contains(' ')
}

/// The token pair an encodable text decodes to, or `None` where the text
/// does not consist of exactly two tokens.
pub open spec fn decoded_name(s: Seq<char>) -> Option<(Seq<char>, Seq<char>)> {
    if exists|f: Seq<char>, l: Seq<char>| is_split(s, f, l) {
        Some(choose|f: Seq<char>, l: Seq<char>| is_split(s, f, l))
    } else {
        None
    }
}

proof fn lemma_space_count_concat(a: Seq<char>, b: Seq<char>)
    ensures
        space_count(a + b) == space_count(a) + space_count(b),
    decreases b.len(),
{
    if b.len() == 0 {
        assert(a + b =~= a);
    } else {
        lemma_space_count_concat(a, b.drop_last());
        assert((a + b).drop_last() =~= a + b.drop_last());
        assert((a + b).last() == b.last());
    }
}

proof fn lemma_space_count_zero(s: Seq<char>)
    ensures
        space_count(s) == 0 <==> !s.contains(' '),
    decreases s.len(),
{
    if s.len() == 0 {
    } else {
        lemma_space_count_zero(s.drop_last());
        if s.last() == ' ' {
            assert(s[s.len() - 1] == ' ');
        } else {
            if s.drop_last().contains(' ') {
                let i = choose|i: int| 0 <= i < s.drop_last().len() && s.drop_last()[i] == ' ';
                assert(s[i] == ' ');
            }
            if s.contains(' ') {
                let i = choose|i: int| 0 <= i < s.len() && s[i] == ' ';
                assert(s.drop_last()[i] == ' ');
            }
        }
    }
}

proof fn lemma_split_has_one_space(s: Seq<char>, first: Seq<char>, last: Seq<char>)
    requires
        is_split(s, first, last),
    ensures
        space_count(s) == 1,
{
    lemma_space_count_concat(first + seq![' '], last);
    lemma_space_count_concat(first, seq![' ']);
    lemma_space_count_single();
    lemma_space_count_zero(first);
    lemma_space_count_zero(last);
}

proof fn lemma_space_count_single()
    ensures
        space_count(seq![' ']) == 1,
{
    assert(seq![' '].drop_last() =~= Seq::<char>::empty());
    assert(space_count(Seq::<char>::empty()) == 0);
    assert(seq![' '].last() == ' ');
}

proof fn lemma_split_unique(
    s: Seq<char>,
    f1: Seq<char>,
    l1: Seq<char>,
    f2: Seq<char>,
    l2: Seq<char>,
)
    requires
        is_split(s, f1, l1),
        is_split(s, f2, l2),
    ensures
        f1 == f2,
        l1 == l2,
{
    let k1 = f1.len() as int;
    let k2 = f2.len() as int;
    assert(seq![' '].len() == 1);
    assert(s.len() == k1 + 1 + l1.len());
    assert(s.len() == k2 + 1 + l2.len());
    assert(s[k1] == ' ');
    assert(s[k2] == ' ');
    if k1 < k2 {
        assert(f2[k1] == ' ');
        assert(false);
    }
    if k2 < k1 {
        assert(f1[k2] == ' ');
        assert(false);
    }
    assert forall|i: int| 0 <= i < f1.len() implies f1[i] == f2[i] by {
        assert(f1[i] == s[i]);
        assert(f2[i] == s[i]);
    }
    assert(f1 =~= f2);
    assert forall|i: int| 0 <= i < l1.len() implies l1[i] == l2[i] by {
        assert(l1[i] == s[k1 + 1 + i]);
        assert(l2[i] == s[k2 + 1 + i]);
    }
    assert(l1 =~= l2);
}

/// Law: a pair of space-free tokens survives the trip to the wire text and
/// back unchanged — the encoded text decodes to exactly the original pair.
pub proof fn lemma_name_round_trip(first: Seq<char>, last: Seq<char>)
    requires
        !first.contains(' '),
        !last.contains(' '),
    ensures
        decoded_name(encoded_name(first, last)) == Some((first, last)),
{
    let s = encoded_name(first, last);
    assert(is_split(s, first, last));
    let (cf, cl) = choose|f: Seq<char>, l: Seq<char>| is_split(s, f, l);
    lemma_split_unique(s, cf, cl, first, last);
}

impl Name {
    /// Encodes the pair as its wire text: the first token, one interior
    /// space, the last token. Total on every pair.
    pub fn encode(&self) -> (r: String)
        ensures
            r@ == encoded_name(self.first@, self.last@),
    {
        proof {
            reveal_strlit(" ");
            assert(" "@ =~= seq![' ']);
        }
        let mut r = String::from_str(self.first.as_str());
        r.append(" ");
        r.append(self.last.as_str());
        proof {
            assert(r@ =~= encoded_name(self.first@, self.last@));
        }
        r
    }

    /// Decodes a wire text by splitting it on the space character. Succeeds
    /// exactly on texts of two tokens; any other token count is a
    /// `FormatError`, never a panic.
    pub fn decode(s: &str) -> (r: Result<Name, CodecError>)
        ensures
            r is Ok <==> token_count(s@) == 2,
            r matches Ok(n) ==> is_split(s@, n.first@, n.last@) && decoded_name(s@) == Some(
                (n.first@, n.last@),
            ),
            r matches Err(e) ==> e == CodecError::FormatError && decoded_name(s@) is None,
    {
        let n = s.unicode_len();
        let mut i: usize = 0;
        let mut count: usize = 0;
        let mut space_idx: usize = 0;
        while i < n
            invariant
                n == s@.len(),
                i <= n,
                count <= i,
                count as nat == space_count(s@.take(i as int)),
                count > 0 ==> space_idx < i && s@[space_idx as int] == ' ',
            decreases n - i,
        {
            proof {
                assert(s@.take(i as int + 1).drop_last() =~= s@.take(i as int));
                assert(s@.take(i as int + 1).last() == s@[i as int]);
            }
            let c = s.get_char(i);
            if c == ' ' {
                count = count + 1;
                space_idx = i;
            }
            i = i + 1;
        }
        proof {
            assert(s@.take(n as int) =~= s@);
        }
        if count != 1 {
            proof {
                if exists|f: Seq<char>, l: Seq<char>| is_split(s@, f, l) {
                    let (cf, cl) = choose|f: Seq<char>, l: Seq<char>| is_split(s@, f, l);
                    lemma_split_has_one_space(s@, cf, cl);
                }
            }
            return Err(CodecError::FormatError);
        }
        let first = s.substring_char(0, space_idx);
        let last = s.substring_char(space_idx + 1, n);
        proof {
            assert(s@ =~= first@ + seq![' '] + last@);
            lemma_space_count_concat(first@ + seq![' '], last@);
            lemma_space_count_concat(first@, seq![' ']);
            lemma_space_count_single();
            lemma_space_count_zero(first@);
            lemma_space_count_zero(last@);
            assert(is_split(s@, first@, last@));
            let (cf, cl) = choose|f: Seq<char>, l: Seq<char>| is_split(s@, f, l);
            lemma_split_unique(s@, cf, cl, first@, last@);
        }
        Ok(Name { first: String::from_str(first), last: String::from_str(last) })
    }
}

} // verus!
