//! The bytes of a note: front matter first, then the rest.

use vstd::prelude::*;

verus! {

/// The bytes of an optional part, none where it is absent.
pub open spec fn part(bytes: Option<&[u8]>) -> Seq<u8> {
    match bytes {
        Some(b) => b@,
        None => Seq::empty(),
    }
}

fn extend(out: &mut Vec<u8>, bytes: &[u8])
    ensures
        final(out)@ == old(out)@ + bytes@,
{
    let ghost before = out@;
    let mut i: usize = 0;
    while i < bytes.len()
        invariant
            i <= bytes.len(),
            out@ == before + bytes@.take(i as int),
        decreases bytes.len() - i,
    {
        out.push(bytes[i]);
        assert(out@ =~= before + bytes@.take(i + 1));
        i += 1;
    }
    assert(bytes@.take(bytes.len() as int) =~= bytes@);
}

/// Concatenates front matter and content, front matter first. A part that is
/// `None` adds nothing.
pub fn concatenate_file_content(frontmatter: Option<&[u8]>, content: Option<&[u8]>) -> (out: Vec<u8>)
    ensures
        out@ == part(frontmatter) + part(content),
{
    let mut out: Vec<u8> = Vec::new();
    match frontmatter {
        Some(f) => extend(&mut out, f),
        None => {},
    }
    match content {
        Some(c) => extend(&mut out, c),
        None => {},
    }
    assert(out@ =~= part(frontmatter) + part(content));
    out
}

} // verus!
