use vstd::prelude::*;

use crate::framing::{after_last, find_after_last, lemma_after_last_bounds};

verus! {

pub const SLASH: u8 = 47;

/// The display name used when none is set: `wayland-0`.
pub open spec fn default_display() -> Seq<u8> {
    seq![119u8, 97, 121, 108, 97, 110, 100, 45, 48]
}

/// What stands between the runtime directory and the display: `/insomnidle-`.
pub open spec fn path_infix() -> Seq<u8> {
    seq![47u8, 105, 110, 115, 111, 109, 110, 105, 100, 108, 101, 45]
}

/// What ends the socket's file name: `.sock`.
pub open spec fn path_suffix() -> Seq<u8> {
    seq![46u8, 115, 111, 99, 107]
}

/// The display identifier: the display variable's value after its last slash, or
/// the default where the variable is unset.
pub open spec fn display_id(display: Option<Seq<u8>>) -> Seq<u8> {
    match display {
        None => default_display(),
        Some(d) => d.subrange(after_last(d, SLASH), d.len() as int),
    }
}

pub open spec fn bytes_of(display: Option<&[u8]>) -> Option<Seq<u8>> {
    match display {
        None => None,
        Some(d) => Some(d@),
    }
}

/// The socket path: `<runtime>/insomnidle-<display-id>.sock`.
pub open spec fn socket_path_of(runtime: Seq<u8>, display: Option<Seq<u8>>) -> Seq<u8> {
    runtime + path_infix() + display_id(display) + path_suffix()
}

/// Appends `src[from..]` to `out`.
fn append_from(out: &mut Vec<u8>, src: &[u8], from: usize)
    requires
        from <= src@.len(),
    ensures
        final(out)@ == old(out)@ + src@.subrange(from as int, src@.len() as int),
{
    let mut i: usize = from;
    while i < src.len()
        invariant
            from <= i <= src@.len(),
            out@ == old(out)@ + src@.subrange(from as int, i as int),
        decreases src@.len() - i,
    {
        out.push(src[i]);
        i = i + 1;
        proof {
            assert(out@ =~= old(out)@ + src@.subrange(from as int, i as int));
        }
    }
}

/// The daemon's socket path from the runtime directory and the display variable
/// (`None` where it is unset).
pub fn socket_path(runtime: &[u8], display: Option<&[u8]>) -> (out: Vec<u8>)
    ensures
        out@ == socket_path_of(runtime@, bytes_of(display)),
{
    let mut out: Vec<u8> = Vec::new();
    append_from(&mut out, runtime, 0);
    let infix: Vec<u8> = vec![47, 105, 110, 115, 111, 109, 110, 105, 100, 108, 101, 45];
    append_from(&mut out, infix.as_slice(), 0);
    match display {
        None => {
            let d: Vec<u8> = vec![119, 97, 121, 108, 97, 110, 100, 45, 48];
            append_from(&mut out, d.as_slice(), 0);
        },
        Some(d) => {
            let j = find_after_last(d, SLASH);
            proof {
                lemma_after_last_bounds(d@, SLASH);
            }
            append_from(&mut out, d, j);
        },
    }
    let suffix: Vec<u8> = vec![46, 115, 111, 99, 107];
    append_from(&mut out, suffix.as_slice(), 0);
    proof {
        assert(runtime@.subrange(0, runtime@.len() as int) =~= runtime@);
        assert(infix@.subrange(0, infix@.len() as int) =~= path_infix());
        assert(suffix@.subrange(0, suffix@.len() as int) =~= path_suffix());
        assert(default_display().subrange(0, 9) =~= default_display());
        assert(out@ =~= socket_path_of(runtime@, bytes_of(display)));
    }
    out
}

/// The socket path is a function of the runtime directory and the display variable
/// alone: computed again from the same values, it is the same path.
pub proof fn lemma_socket_path_deterministic(
    runtime1: Seq<u8>,
    display1: Option<Seq<u8>>,
    runtime2: Seq<u8>,
    display2: Option<Seq<u8>>,
)
    requires
        runtime1 == runtime2,
        display1 == display2,
    ensures
        socket_path_of(runtime1, display1) == socket_path_of(runtime2, display2),
{
}

} // verus!
