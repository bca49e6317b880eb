use vstd::prelude::*;
use vstd::string::StrSliceExecFns;

verus! {

/// Appending a single character to a `String`.
///
/// Relies on `String::push` from std: it appends the given char to the end
/// of this `String`.
pub assume_specification[ String::push ](s: &mut String, ch: char)
    ensures
        final (s)@ == old(s)@.push(ch),
;

/// How the slug transforms one character of an application name: spaces
/// become hyphens, ASCII upper-case letters become lower-case, and every
/// other character is kept as it is.
pub open spec fn slug_char(c: char) -> char {
    if c == ' ' {
        '-'
    } else if 65 <= c as u32 && c as u32 <= 90 {
        (((c as u32) + 32) as u8) as char
    } else {
        c
    }
}

/// The derived image identity: the lower-cased, space-to-hyphen application
/// name, joined with the service's base image name by a hyphen.
pub open spec fn slug_of(name: Seq<char>, image: Seq<char>) -> Seq<char> {
    name.map_values(|c: char| slug_char(c)) + seq!['-'] + image
}

/// The remote build source handed to the container backend in lieu of a
/// local build directory: `repository#branch:build_context`.
pub open spec fn remote_source_of(
    repository: Seq<char>,
    branch: Seq<char>,
    build_context: Seq<char>,
) -> Seq<char> {
    repository + seq!['#'] + branch + seq![':'] + build_context
}

/// One slug character, executable form.
fn slug_char_exec(c: char) -> (r: char)
    ensures
        r == slug_char(c),
{
    let u: u32 = c as u32;
    proof {
        assert(c == ' ' <==> c as u32 == 32);
    }
    if u == 32 {
        '-'
    } else if 65 <= u && u <= 90 {
        ((u + 32) as u8) as char
    } else {
        c
    }
}

/// Appends the slug transform of every character of `s` to `out`.
pub(crate) fn push_slug_chars(out: &mut String, s: &str)
    ensures
        final (out)@ == old(out)@ + s@.map_values(|c: char| slug_char(c)),
{
    let n: usize = s.unicode_len();
    let mut i: usize = 0;
    while i < n
        invariant
            i <= n,
            n == s@.len(),
            out@ == old(out)@ + s@.subrange(0, i as int).map_values(|c: char| slug_char(c)),
        decreases n - i,
    {
        let c = s.get_char(i);
        out.push(slug_char_exec(c));
        proof {
            assert(s@.subrange(0, i + 1 as int).map_values(|c: char| slug_char(c)) =~= s@
                .subrange(0, i as int).map_values(|c: char| slug_char(c)).push(
                slug_char(s@[i as int]),
            ));
        }
        i = i + 1;
    }
    proof {
        assert(s@.subrange(0, n as int) =~= s@);
    }
}

/// Appends every character of `s` to `out`, unchanged.
pub(crate) fn push_chars(out: &mut String, s: &str)
    ensures
        final (out)@ == old(out)@ + s@,
{
    let n: usize = s.unicode_len();
    let mut i: usize = 0;
    while i < n
        invariant
            i <= n,
            n == s@.len(),
            out@ == old(out)@ + s@.subrange(0, i as int),
        decreases n - i,
    {
        let c = s.get_char(i);
        out.push(c);
        proof {
            assert(s@.subrange(0, i + 1 as int) =~= s@.subrange(0, i as int).push(
                s@[i as int],
            ));
        }
        i = i + 1;
    }
    proof {
        assert(s@.subrange(0, n as int) =~= s@);
    }
}

/// The slug over plain strings: used as the image build tag and as a
/// human-readable label. Two services with the same application name and the
/// same base image collide; that is a documented limitation, not handled
/// here.
pub fn derive_slug(name: &str, image: &str) -> (r: String)
    ensures
        r@ == slug_of(name@, image@),
{
    let mut out = String::new();
    push_slug_chars(&mut out, name);
    out.push('-');
    push_chars(&mut out, image);
    proof {
        assert(out@ =~= slug_of(name@, image@));
    }
    out
}

/// The remote build source over plain strings.
pub fn derive_remote_source(repository: &str, branch: &str, build_context: &str) -> (r: String)
    ensures
        r@ == remote_source_of(repository@, branch@, build_context@),
{
    let mut out = String::new();
    push_chars(&mut out, repository);
    out.push('#');
    push_chars(&mut out, branch);
    out.push(':');
    push_chars(&mut out, build_context);
    proof {
        assert(out@ =~= remote_source_of(repository@, branch@, build_context@));
    }
    out
}

} // verus!
