//! The textual bundle: a linear stream that packs files one after the other.
//!
//! ```text
//! PSELFv12\n
//! --FILE:<name>--\n<raw bytes>\n--END--\n      once per file
//! PSELF-END\n
//! ```
//!
//! The bundle carries no digests and no offsets, and is a format of its own:
//! it has nothing in common with the binary container but part of its name.

use vstd::prelude::*;
use vstd::utf8::encode_utf8;

verus! {

/// A file to pack: the name it gets in the bundle, and its bytes.
#[derive(Debug, Clone, PartialEq, Eq)]
pub struct IncludedFile {
    pub name: String,
    pub content: Vec<u8>,
}

/// The packer of bundles.
pub struct SerialK;

/// The bytes that frame one file in a bundle.
pub open spec fn file_frame(name: Seq<char>, content: Seq<u8>) -> Seq<u8> {
    encode_utf8("--FILE:"@) + encode_utf8(name) + encode_utf8("--\n"@) + content + encode_utf8(
        "\n--END--\n"@,
    )
}

/// The frames of the first `n` files, one after the other.
pub open spec fn file_frames(files: Seq<IncludedFile>, n: nat) -> Seq<u8>
    decreases n,
{
    if n == 0 {
        Seq::empty()
    } else {
        file_frames(files, (n - 1) as nat) + file_frame(files[n - 1].name@, files[n - 1].content@)
    }
}

/// The bytes of the bundle of `files`.
pub open spec fn bundle_bytes(files: Seq<IncludedFile>) -> Seq<u8> {
    encode_utf8("PSELFv12\n"@) + file_frames(files, files.len()) + encode_utf8("PSELF-END\n"@)
}

impl SerialK {
    /// Packs `files` into a bundle, in their order.
    pub fn create_pself(files: &[IncludedFile]) -> (r: Vec<u8>)
        ensures
            r@ == bundle_bytes(files@),
    {
        let mut out: Vec<u8> = Vec::new();
        out.extend_from_slice("PSELFv12\n".as_bytes());
        let mut i: usize = 0;
        while i < files.len()
            invariant
                i <= files@.len(),
                out@ == encode_utf8("PSELFv12\n"@) + file_frames(files@, i as nat),
            decreases files@.len() - i,
        {
            let ghost before = out@;
            let f = &files[i];
            out.extend_from_slice("--FILE:".as_bytes());
            out.extend_from_slice(f.name.as_str().as_bytes());
            out.extend_from_slice("--\n".as_bytes());
            out.extend_from_slice(f.content.as_slice());
            out.extend_from_slice("\n--END--\n".as_bytes());
            assert(out@ =~= before + file_frame(f.name@, f.content@));
            i += 1;
            assert(out@ =~= encode_utf8("PSELFv12\n"@) + file_frames(files@, i as nat));
        }
        out.extend_from_slice("PSELF-END\n".as_bytes());
        out
    }

    /// Pairs each name with the content that was read for it. Gives `None`
    /// when there are not as many contents as names.
    pub fn load_included_files(names: Vec<String>, contents: Vec<Vec<u8>>) -> (r: Option<
        Vec<IncludedFile>,
    >)
        ensures
            r is Some <==> names@.len() == contents@.len(),
            r matches Some(files) ==> {
                &&& files@.len() == names@.len()
                &&& forall|i: int|
                    0 <= i < files@.len() ==> (#[trigger] files@[i]).name@ == names@[i]@
                        && files@[i].content@ == contents@[i]@
            },
    {
        if names.len() != contents.len() {
            return None;
        }
        let mut files: Vec<IncludedFile> = Vec::new();
        let mut i: usize = 0;
        while i < names.len()
            invariant
                i <= names@.len(),
                names@.len() == contents@.len(),
                files@.len() == i,
                forall|j: int|
                    0 <= j < i ==> (#[trigger] files@[j]).name@ == names@[j]@
                        && files@[j].content@ == contents@[j]@,
            decreases names@.len() - i,
        {
            files.push(IncludedFile { name: names[i].clone(), content: contents[i].clone() });
            i += 1;
        }
        Some(files)
    }
}

} // verus!
