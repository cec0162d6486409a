//! Media typing of image assets: the dotted extension of a source path, and
//! the media type guessed from it by the mime table, falling back to a
//! generic octet-stream type when nothing is known.

use vstd::prelude::*;

verus! {

/// The position of the last occurrence of `c` in `s`, or -1.
pub open spec fn last_index(s: Seq<char>, c: char) -> int
    decreases s.len(),
{
    if s.len() == 0 {
        -1
    } else if s.last() == c {
        s.len() - 1
    } else {
        last_index(s.drop_last(), c)
    }
}

proof fn lemma_last_index(s: Seq<char>, c: char)
    ensures
        -1 <= last_index(s, c) < s.len(),
        last_index(s, c) >= 0 ==> s[last_index(s, c)] == c,
        forall|j: int| last_index(s, c) < j < s.len() ==> s[j] != c,
    decreases s.len(),
{
    if s.len() > 0 && s.last() != c {
        lemma_last_index(s.drop_last(), c);
        assert forall|j: int| last_index(s, c) < j < s.len() implies s[j] != c by {
            if j < s.len() - 1 {
                assert(s.drop_last()[j] == s[j]);
            }
        }
    }
}

/// The dotted extension of a source path: the part of the final path
/// component from its last embedded `.` on, and nothing when the component
/// has no `.` past its first character.
pub open spec fn dot_ext_spec(s: Seq<char>) -> Seq<char> {
    let slash = last_index(s, '/');
    let d = last_index(s, '.');
    if d > slash + 1 {
        s.skip(d)
    } else {
        Seq::<char>::empty()
    }
}

/// The extension is empty or a dot followed by dot-free characters.
pub proof fn lemma_dot_ext_shape(s: Seq<char>)
    ensures
        dot_ext_spec(s).len() == 0 || dot_ext_spec(s)[0] == '.',
        forall|j: int| 0 < j < dot_ext_spec(s).len() ==> dot_ext_spec(s)[j] != '.',
{
    lemma_last_index(s, '/');
    lemma_last_index(s, '.');
}

fn last_position(s: &str, c: char) -> (r: Option<usize>)
    ensures
        match r {
            Some(i) => last_index(s@, c) == i,
            None => last_index(s@, c) == -1,
        },
{
    let len = s.unicode_len();
    let mut found = false;
    let mut idx: usize = 0;
    let mut i: usize = 0;
    proof {
        assert(s@.subrange(0, 0) =~= Seq::<char>::empty());
    }
    while i < len
        invariant
            i <= len,
            len == s@.len(),
            found ==> idx < i && last_index(s@.subrange(0, i as int), c) == idx,
            !found ==> last_index(s@.subrange(0, i as int), c) == -1,
        decreases len - i,
    {
        let ch = s.get_char(i);
        proof {
            let pre = s@.subrange(0, i as int);
            let post = s@.subrange(0, i + 1);
            assert(post.drop_last() =~= pre);
            assert(post.last() == s@[i as int]);
        }
        if ch == c {
            found = true;
            idx = i;
        }
        i = i + 1;
    }
    proof {
        assert(s@.subrange(0, len as int) =~= s@);
    }
    if found {
        Some(idx)
    } else {
        None
    }
}

/// The dotted extension of a source path, as a fresh string.
pub fn dot_ext(s: &str) -> (r: String)
    ensures
        r@ == dot_ext_spec(s@),
{
    let len = s.unicode_len();
    let slash = last_position(s, '/');
    let dot = last_position(s, '.');
    proof {
        lemma_last_index(s@, '/');
        lemma_last_index(s@, '.');
    }
    let start = match slash {
        Some(i) => i + 1,
        None => 0,
    };
    match dot {
        Some(d) => {
            if d > start {
                proof {
                    lemma_last_index(s@, '.');
                    assert(s@.skip(d as int) =~= s@.subrange(d as int, s@.len() as int));
                }
                s.substring_char(d, len).to_owned()
            } else {
                String::new()
            }
        },
        None => String::new(),
    }
}

/// The media type that the mime table assigns to a path, by its extension
/// alone; a fixed function of the path's characters.
pub uninterp spec fn mime_of(path: Seq<char>) -> Seq<char>;

/// Relies on mime_guess::from_path and MimeGuess::first_or_octet_stream: the
/// media type is read from a fixed extension table, with
/// application/octet-stream when the extension is unknown.
#[verifier::external_body]
pub(crate) fn guess_media_type(path: &str) -> (r: String)
    ensures
        r@ == mime_of(path@),
{
    mime_guess::from_path(path).first_or_octet_stream().to_string()
}

} // verus!
