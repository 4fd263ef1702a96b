//! Titles in their display form: every word with a capital first letter, the
//! words one space apart.

use crate::text::{
    ascii_upper, char_is_whitespace, chars_of, is_whitespace, string_of, to_ascii_upper,
};
use vstd::prelude::*;

verus! {

/// The length of the longest start of `s` that holds no white space.
pub open spec fn word_len(s: Seq<char>) -> nat
    decreases s.len(),
{
    if s.len() == 0 || is_whitespace(s[0]) {
        0
    } else {
        1 + word_len(s.drop_first())
    }
}

/// The words of `s`: its longest runs of characters that are no white space,
/// in order.
pub open spec fn words(s: Seq<char>) -> Seq<Seq<char>>
    decreases s.len(),
{
    if s.len() == 0 {
        Seq::empty()
    } else if is_whitespace(s[0]) {
        words(s.drop_first())
    } else {
        let n = word_len(s) as int;
        if 0 < n <= s.len() {
            seq![s.take(n)] + words(s.skip(n))
        } else {
            Seq::empty()
        }
    }
}

/// The word with its first character made an ASCII capital; the rest is left
/// as it is.
pub open spec fn capitalize(word: Seq<char>) -> Seq<char> {
    if word.len() == 0 {
        word
    } else {
        seq![ascii_upper(word[0])] + word.drop_first()
    }
}

/// Every word of `ws`, capitalized.
pub open spec fn capitalize_all(ws: Seq<Seq<char>>) -> Seq<Seq<char>> {
    Seq::new(ws.len(), |i: int| capitalize(ws[i]))
}

/// The words of `ws` in one text, a single space between neighbours.
pub open spec fn join(ws: Seq<Seq<char>>) -> Seq<char>
    decreases ws.len(),
{
    if ws.len() == 0 {
        Seq::empty()
    } else if ws.len() == 1 {
        ws[0]
    } else {
        ws[0] + seq![' '] + join(ws.drop_first())
    }
}

/// The display form of a title.
pub open spec fn normalized(title: Seq<char>) -> Seq<char> {
    join(capitalize_all(words(title)))
}

/// Whether `w` is a word: not empty, and without white space.
pub open spec fn is_word(w: Seq<char>) -> bool {
    w.len() > 0 && forall|i: int| 0 <= i < w.len() ==> !is_whitespace(#[trigger] w[i])
}

/// Whether every member of `ws` is a word.
pub open spec fn all_words(ws: Seq<Seq<char>>) -> bool {
    forall|i: int| 0 <= i < ws.len() ==> is_word(#[trigger] ws[i])
}

/// `acc` with the words of `ws` appended, each after a space unless it
/// starts the text.
spec fn extended(acc: Seq<char>, ws: Seq<Seq<char>>) -> Seq<char>
    decreases ws.len(),
{
    if ws.len() == 0 {
        acc
    } else if acc.len() == 0 {
        extended(ws[0], ws.drop_first())
    } else {
        extended(acc + seq![' '] + ws[0], ws.drop_first())
    }
}

/// The first word of a text ends within the text, and is a word.
proof fn lemma_word_len(s: Seq<char>)
    ensures
        word_len(s) <= s.len(),
        forall|i: int| 0 <= i < word_len(s) ==> !is_whitespace(#[trigger] s[i]),
        word_len(s) < s.len() ==> is_whitespace(s[word_len(s) as int]),
        s.len() > 0 && !is_whitespace(s[0]) ==> word_len(s) > 0,
    decreases s.len(),
{
    if s.len() > 0 && !is_whitespace(s[0]) {
        let rest = s.drop_first();
        lemma_word_len(rest);
        assert forall|i: int| 0 <= i < word_len(s) implies !is_whitespace(#[trigger] s[i]) by {
            if i > 0 {
                assert(s[i] == rest[i - 1]);
            }
        }
        if word_len(s) < s.len() {
            assert(s[word_len(s) as int] == rest[word_len(rest) as int]);
        }
    }
}

/// What is split off a text are words.
proof fn lemma_words_are_words(s: Seq<char>)
    ensures
        all_words(words(s)),
    decreases s.len(),
{
    if s.len() == 0 {
    } else if is_whitespace(s[0]) {
        lemma_words_are_words(s.drop_first());
    } else {
        lemma_word_len(s);
        let n = word_len(s) as int;
        lemma_words_are_words(s.skip(n));
        let rest = words(s.skip(n));
        let all = seq![s.take(n)] + rest;
        assert forall|i: int| 0 <= i < all.len() implies is_word(#[trigger] all[i]) by {
            if i > 0 {
                assert(all[i] == rest[i - 1]);
            }
        }
    }
}

/// A word that stands before the end of a text, or before white space, is the
/// first word of that text.
proof fn lemma_word_len_of_word(w: Seq<char>, rest: Seq<char>)
    requires
        forall|i: int| 0 <= i < w.len() ==> !is_whitespace(#[trigger] w[i]),
        rest.len() == 0 || is_whitespace(rest[0]),
    ensures
        word_len(w + rest) == w.len(),
    decreases w.len(),
{
    let s = w + rest;
    if w.len() == 0 {
        assert(s =~= rest);
    } else {
        assert(s[0] == w[0]);
        assert(s.drop_first() =~= w.drop_first() + rest);
        assert forall|i: int| 0 <= i < w.drop_first().len() implies !is_whitespace(
            #[trigger] w.drop_first()[i],
        ) by {
            assert(w.drop_first()[i] == w[i + 1]);
        }
        lemma_word_len_of_word(w.drop_first(), rest);
    }
}

/// Splitting what was joined from words gives the words back.
proof fn lemma_words_of_join(ws: Seq<Seq<char>>)
    requires
        all_words(ws),
    ensures
        words(join(ws)) == ws,
    decreases ws.len(),
{
    if ws.len() == 0 {
    } else {
        let w = ws[0];
        assert(is_word(w));
        if ws.len() == 1 {
            let s = join(ws);
            assert(s == w);
            lemma_word_len_of_word(w, Seq::empty());
            assert(w + Seq::<char>::empty() =~= w);
            assert(s.take(w.len() as int) =~= w);
            assert(s.skip(w.len() as int) =~= Seq::<char>::empty());
            assert(!is_whitespace(w[0]));
            assert(words(s.skip(w.len() as int)) =~= Seq::<Seq<char>>::empty());
            assert(words(s) == seq![s.take(w.len() as int)] + words(s.skip(w.len() as int)));
            assert(words(s) =~= ws);
        } else {
            let tail = ws.drop_first();
            assert forall|i: int| 0 <= i < tail.len() implies is_word(#[trigger] tail[i]) by {
                assert(tail[i] == ws[i + 1]);
            }
            lemma_words_of_join(tail);
            let after = seq![' '] + join(tail);
            let s = join(ws);
            assert(s =~= w + after);
            assert(is_whitespace(' '));
            assert(after[0] == ' ');
            lemma_word_len_of_word(w, after);
            assert(s[0] == w[0]);
            assert(s.take(w.len() as int) =~= w);
            assert(s.skip(w.len() as int) =~= after);
            assert(after.drop_first() =~= join(tail));
            assert(words(after) == words(join(tail)));
            assert(!is_whitespace(w[0]));
            assert(words(s) == seq![s.take(w.len() as int)] + words(s.skip(w.len() as int)));
            assert(seq![w] + tail =~= ws);
        }
    }
}

/// A capitalized word is a word, and capitalizing it again changes nothing.
proof fn lemma_capitalize_word(w: Seq<char>)
    requires
        is_word(w),
    ensures
        is_word(capitalize(w)),
        capitalize(capitalize(w)) == capitalize(w),
{
    let c = capitalize(w);
    assert forall|i: int| 0 <= i < c.len() implies !is_whitespace(#[trigger] c[i]) by {
        if i > 0 {
            assert(c[i] == w[i]);
        } else {
            assert(!is_whitespace(w[0]));
        }
    }
    assert(capitalize(c) =~= c);
}

/// The display form of a title is its own display form: normalizing a second
/// time changes nothing.
pub proof fn lemma_normalized_is_idempotent(title: Seq<char>)
    ensures
        normalized(normalized(title)) == normalized(title),
{
    let ws = words(title);
    let caps = capitalize_all(ws);
    lemma_words_are_words(title);
    assert forall|i: int| 0 <= i < caps.len() implies is_word(#[trigger] caps[i]) by {
        lemma_capitalize_word(ws[i]);
    }
    lemma_words_of_join(caps);
    assert(capitalize_all(caps) =~= caps) by {
        assert forall|i: int| 0 <= i < caps.len() implies capitalize_all(caps)[i] == caps[i] by {
            lemma_capitalize_word(ws[i]);
        }
    }
}

/// Appending words to a text one by one gives the text, a space, and the
/// words joined.
proof fn lemma_extended(acc: Seq<char>, ws: Seq<Seq<char>>)
    requires
        all_words(ws),
    ensures
        extended(acc, ws) == if ws.len() == 0 {
            acc
        } else if acc.len() == 0 {
            join(ws)
        } else {
            acc + seq![' '] + join(ws)
        },
    decreases ws.len(),
{
    if ws.len() > 0 {
        let tail = ws.drop_first();
        assert forall|i: int| 0 <= i < tail.len() implies is_word(#[trigger] tail[i]) by {
            assert(tail[i] == ws[i + 1]);
        }
        assert(is_word(ws[0]));
        let next = if acc.len() == 0 {
            ws[0]
        } else {
            acc + seq![' '] + ws[0]
        };
        lemma_extended(next, tail);
        if tail.len() > 0 {
            assert(next + seq![' '] + join(tail) =~= if acc.len() == 0 {
                join(ws)
            } else {
                acc + seq![' '] + join(ws)
            });
        }
    }
}

/// Puts a title into its display form: the words of the title, each with its
/// first character made an ASCII capital and the rest left as it is, one
/// space apart.
pub fn normalize_title(title: &str) -> (r: String)
    requires
        title@.len() > 0,
    ensures
        r@ == normalized(title@),
{
    let chars = chars_of(title);
    let ghost s = chars@;
    let mut out: Vec<char> = Vec::new();
    let mut i: usize = 0;
    proof {
        lemma_words_are_words(s);
        assert(s.skip(0) =~= s);
        let caps = capitalize_all(words(s));
        assert forall|k: int| 0 <= k < caps.len() implies is_word(#[trigger] caps[k]) by {
            lemma_capitalize_word(words(s)[k]);
        }
        lemma_extended(out@, caps);
    }
    while i < chars.len()
        invariant
            i <= chars.len(),
            s == chars@,
            extended(out@, capitalize_all(words(s.skip(i as int)))) == normalized(s),
        decreases chars.len() - i,
    {
        let ghost rest = s.skip(i as int);
        proof {
            assert(rest[0] == s[i as int]);
            assert(rest.drop_first() =~= s.skip(i + 1));
        }
        if char_is_whitespace(chars[i]) {
            i += 1;
        } else {
            let ghost base = out@;
            if out.len() > 0 {
                out.push(' ');
            }
            let ghost lead = out@;
            out.push(to_ascii_upper(chars[i]));
            let mut k: usize = i + 1;
            while k < chars.len() && !char_is_whitespace(chars[k])
                invariant
                    i < k <= chars.len(),
                    s == chars@,
                    rest == s.skip(i as int),
                    out@ == lead + capitalize(s.subrange(i as int, k as int)),
                    word_len(rest) == (k - i) + word_len(s.skip(k as int)),
                decreases chars.len() - k,
            {
                proof {
                    assert(s.skip(k as int)[0] == s[k as int]);
                    assert(s.skip(k as int).drop_first() =~= s.skip(k + 1));
                    assert(capitalize(s.subrange(i as int, k + 1)) =~= capitalize(
                        s.subrange(i as int, k as int),
                    ).push(s[k as int]));
                }
                out.push(chars[k]);
                k += 1;
            }
            proof {
                let n = word_len(rest) as int;
                if k < chars.len() {
                    assert(s.skip(k as int)[0] == s[k as int]);
                }
                assert(n == k - i);
                assert(rest.take(n) =~= s.subrange(i as int, k as int));
                assert(rest.skip(n) =~= s.skip(k as int));
                let word = rest.take(n);
                let later = words(s.skip(k as int));
                assert(words(rest) == seq![word] + later);
                let caps = capitalize_all(words(rest));
                assert(caps[0] == capitalize(word));
                assert(caps.drop_first() =~= capitalize_all(later));
                assert(out@ == if base.len() == 0 {
                    caps[0]
                } else {
                    base + seq![' '] + caps[0]
                }) by {
                    if base.len() == 0 {
                        assert(lead + capitalize(word) =~= capitalize(word));
                    }
                }
            }
            i = k;
        }
    }
    proof {
        assert(s.skip(i as int) =~= Seq::<char>::empty());
        assert(capitalize_all(words(Seq::<char>::empty())) =~= Seq::<Seq<char>>::empty());
    }
    string_of(&out)
}

} // verus!
