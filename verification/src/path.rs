//! Joining paths as `Path::join` does on Unix.
use vstd::prelude::*;
use vstd::utf8::{encode_scalar, encode_utf8};

verus! {

/// `path` is absolute: it starts with `/`.
pub open spec fn is_absolute(path: Seq<char>) -> bool {
    path.len() > 0 && path[0] == '/'
}

/// `base` joined with `path`: `path` itself where it is absolute; otherwise
/// `path` after `base`, with a `/` between them unless `base` is empty or
/// already ends with one.
pub open spec fn spec_join(base: Seq<char>, path: Seq<char>) -> Seq<char> {
    if is_absolute(path) {
        path
    } else if base.len() == 0 || base.last() == '/' {
        base + path
    } else {
        base + seq!['/'] + path
    }
}

proof fn lemma_byte_slash(u: u32)
    by (bit_vector)
    ensures
        (u <= 0x7F) ==> ((((u & 0x7F) as u8) == 47u8) == (u == 47)),
        ((0x80u8 | ((u & 0x3F) as u8)) as u8) != 47u8,
        ((0xC0u8 | (((u >> 6u32) & 0x1F) as u8)) as u8) != 47u8,
        ((0xE0u8 | (((u >> 12u32) & 0x0F) as u8)) as u8) != 47u8,
        ((0xF0u8 | (((u >> 18u32) & 0x7) as u8)) as u8) != 47u8,
{
}

/// The first and the last byte of a character's encoding are `/` exactly
/// when the character is.
proof fn lemma_scalar_slash(c: char)
    ensures
        encode_scalar(c as u32).len() > 0,
        (encode_scalar(c as u32)[0] == 47u8) == (c == '/'),
        (encode_scalar(c as u32).last() == 47u8) == (c == '/'),
{
    let u = c as u32;
    vstd::utf8::char_is_scalar(c);
    lemma_byte_slash(u);
    assert(('/' as u32) == 47);
    if u == 47 {
        vstd::utf8::char_u32_cast(c, u);
        vstd::utf8::char_u32_cast('/', 47);
    }
}

proof fn lemma_encode_concat(a: Seq<char>, b: Seq<char>)
    ensures
        encode_utf8(a + b) == encode_utf8(a) + encode_utf8(b),
    decreases a.len(),
{
    if a.len() == 0 {
        assert(a + b =~= b);
        assert(encode_utf8(a) + encode_utf8(b) =~= encode_utf8(b));
    } else {
        assert((a + b).drop_first() =~= a.drop_first() + b);
        lemma_encode_concat(a.drop_first(), b);
        assert(encode_utf8(a + b) =~= encode_utf8(a) + encode_utf8(b));
    }
}

proof fn lemma_first_byte(s: Seq<char>)
    requires
        s.len() > 0,
    ensures
        encode_utf8(s).len() > 0,
        (encode_utf8(s)[0] == 47u8) == (s[0] == '/'),
{
    lemma_scalar_slash(s[0]);
}

proof fn lemma_last_byte(s: Seq<char>)
    requires
        s.len() > 0,
    ensures
        encode_utf8(s).len() > 0,
        (encode_utf8(s).last() == 47u8) == (s.last() == '/'),
{
    let init = s.drop_last();
    let c = s.last();
    assert(s =~= init + seq![c]);
    lemma_encode_concat(init, seq![c]);
    let one = seq![c];
    assert(one.drop_first() =~= Seq::<char>::empty());
    assert(encode_utf8(one.drop_first()) =~= Seq::<u8>::empty());
    assert(one[0] == c);
    assert(encode_utf8(one) == encode_scalar(c as u32) + encode_utf8(one.drop_first()));
    assert(encode_utf8(one) =~= encode_scalar(c as u32));
    lemma_scalar_slash(c);
}

proof fn lemma_empty_bytes(s: Seq<char>)
    ensures
        (encode_utf8(s).len() == 0) == (s.len() == 0),
{
    if s.len() > 0 {
        lemma_first_byte(s);
    }
}

pub fn join_path(base: &str, path: &str) -> (r: String)
    ensures
        r@ == spec_join(base@, path@),
{
    let pb = path.as_bytes();
    if pb.len() > 0 && pb[0] == 47u8 {
        proof {
            lemma_empty_bytes(path@);
            lemma_first_byte(path@);
        }
        return path.to_owned();
    }
    proof {
        if path@.len() > 0 {
            lemma_first_byte(path@);
        }
    }
    let bb = base.as_bytes();
    let mut joined = base.to_owned();
    if bb.len() > 0 && bb[bb.len() - 1] != 47u8 {
        proof {
            lemma_empty_bytes(base@);
            lemma_last_byte(base@);
        }
        joined.append("/");
        proof {
            reveal_strlit("/");
        }
    } else {
        proof {
            lemma_empty_bytes(base@);
            if base@.len() > 0 {
                lemma_last_byte(base@);
            }
        }
    }
    joined.append(path);
    joined
}

/// A directory of test files.
pub struct Tree {
    root: String,
}

impl Tree {
    pub closed spec fn root(&self) -> Seq<char> {
        self.root@
    }

    pub fn new(root: String) -> (t: Tree)
        ensures
            t.root() == root@,
    {
        Tree { root }
    }

    /// The path of `path` in the tree.
    pub fn path(&self, path: &str) -> (r: String)
        ensures
            r@ == spec_join(self.root(), path@),
    {
        join_path(self.root.as_str(), path)
    }
}

} // verus!
