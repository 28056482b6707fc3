//! Reading the bot token out of the startup configuration text: the
//! first line carrying the token key yields everything after the key.

use vstd::prelude::*;

use crate::chars::str_chars;
use crate::chars::string_from_chars;
use crate::codec::split_lines;
use crate::codec::split_lines_exec;
use crate::codec::line_views;

verus! {

/// The key a configuration line must start with to carry the token.
pub open spec fn token_key() -> Seq<char> {
    "TELEGRAM_BOT_TOKEN="@
}

/// The token a single line carries, if any: what follows the key.
pub open spec fn line_token(l: Seq<char>) -> Option<Seq<char>> {
    if l.len() >= token_key().len() && l.subrange(0, token_key().len() as int) == token_key() {
        Option::Some(l.subrange(token_key().len() as int, l.len() as int))
    } else {
        Option::None
    }
}

/// The token of the first line that carries one.
pub open spec fn find_token(lines: Seq<Seq<char>>) -> Option<Seq<char>>
    decreases lines.len(),
{
    if lines.len() == 0 {
        Option::None
    } else if line_token(lines[0]) is Some {
        line_token(lines[0])
    } else {
        find_token(lines.drop_first())
    }
}

/// The token held in a configuration text.
pub open spec fn extract_token_spec(content: Seq<char>) -> Option<Seq<char>> {
    find_token(split_lines(content))
}

/// Lines without the key do not decide the search.
proof fn lemma_find_token_skip(lines: Seq<Seq<char>>, i: int)
    requires
        0 <= i <= lines.len(),
        forall|j: int| 0 <= j < i ==> (#[trigger] line_token(lines[j])) is None,
    ensures
        find_token(lines) == find_token(lines.skip(i)),
    decreases i,
{
    if i > 0 {
        assert(line_token(lines[0]) is None);
        assert(forall|j: int|
            0 <= j < lines.drop_first().len() ==> lines.drop_first()[j] == lines[j + 1]);
        lemma_find_token_skip(lines.drop_first(), i - 1);
        assert(lines.drop_first().skip(i - 1) =~= lines.skip(i));
    } else {
        assert(lines.skip(0) =~= lines);
    }
}

/// Picks the token out of a configuration text: the first line starting
/// with the key gives everything after the key; `None` when no line
/// does.
pub fn extract_bot_token(content: &str) -> (r: Option<String>)
    ensures
        r is Some <==> extract_token_spec(content@) is Some,
        r is Some ==> r->0@ == extract_token_spec(content@)->0,
{
    let chars = str_chars(content);
    let lines = split_lines_exec(&chars);
    let key = str_chars("TELEGRAM_BOT_TOKEN=");
    let mut i: usize = 0;
    while i < lines.len()
        invariant
            i <= lines@.len(),
            key@ == token_key(),
            line_views(lines@) == split_lines(content@),
            forall|j: int|
                0 <= j < i ==> (#[trigger] line_token(line_views(lines@)[j])) is None,
        decreases lines@.len() - i,
    {
        let line = &lines[i];
        proof {
            assert(line_views(lines@)[i as int] == lines@[i as int]@);
        }
        if line.len() >= key.len() {
            let mut k: usize = 0;
            let mut matches = true;
            while k < key.len()
                invariant
                    k <= key@.len(),
                    key@.len() <= line@.len(),
                    line@ == lines@[i as int]@,
                    i < lines@.len(),
                    matches ==> forall|m: int| 0 <= m < k ==> line@[m] == key@[m],
                    !matches ==> exists|m: int| 0 <= m < key@.len() && line@[m] != key@[m],
                decreases key@.len() - k,
            {
                if line[k] != key[k] {
                    matches = false;
                }
                k = k + 1;
            }
            if matches {
                proof {
                    assert(line@.subrange(0, key@.len() as int) =~= key@);
                    assert(line_token(line@) is Some);
                    lemma_find_token_skip(line_views(lines@), i as int);
                    let rest = line_views(lines@).skip(i as int);
                    assert(rest[0] == line@);
                    assert(find_token(rest) == line_token(line@));
                }
                let mut out: Vec<char> = Vec::new();
                let mut m: usize = key.len();
                while m < line.len()
                    invariant
                        key@.len() <= m <= line@.len(),
                        line@ == lines@[i as int]@,
                        i < lines@.len(),
                        out@ == line@.subrange(key@.len() as int, m as int),
                    decreases line@.len() - m,
                {
                    out.push(line[m]);
                    proof {
                        assert(line@.subrange(key@.len() as int, m as int).push(line@[m as int])
                            =~= line@.subrange(key@.len() as int, m + 1 as int));
                    }
                    m = m + 1;
                }
                return Some(string_from_chars(&out));
            }
            proof {
                let w = choose|w: int| 0 <= w < key@.len() && line@[w] != key@[w];
                if line@.subrange(0, key@.len() as int) == token_key() {
                    assert(line@.subrange(0, key@.len() as int)[w] == line@[w]);
                }
                assert(line_token(line@) is None);
            }
        } else {
            proof {
                assert(line_token(line@) is None);
            }
        }
        i = i + 1;
    }
    proof {
        lemma_find_token_skip(line_views(lines@), lines@.len() as int);
        assert(line_views(lines@).skip(lines@.len() as int) =~= Seq::<Seq<char>>::empty());
    }
    None
}

} // verus!
