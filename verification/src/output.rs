//! Naming and placing output files: a decrypted asset keeps its stem,
//! takes its kind's extension, and lands either next to its input
//! (in-place mode) or directly in one flat output directory (copy mode).

use vstd::prelude::*;
use crate::assets::{AssetKind, spec_output_extension, output_extension};
use crate::paths::{
    last_index_of, lemma_last_index_of, lemma_last_index_of_unique, spec_file_name, spec_parent,
    spec_stem, parent_dir, stem,
};

verus! {

/// Where output files go: next to their inputs, or all in one directory.
pub enum Placement {
    InPlace,
    CopyTo(String),
}

/// The directory an input's output file goes to.
pub open spec fn spec_output_dir(input: Seq<char>, place: Placement) -> Seq<char> {
    match place {
        Placement::InPlace => spec_parent(input),
        Placement::CopyTo(d) => d@,
    }
}

/// The full output path: the output directory, a `/`, the input's stem,
/// a `.`, and the kind's extension.
pub open spec fn spec_output_path(input: Seq<char>, kind: AssetKind, place: Placement) -> Seq<
    char,
> {
    spec_output_dir(input, place) + "/"@ + spec_stem(input) + "."@ + spec_output_extension(kind)
}

/// Build the path an asset's decrypted form is written to.
pub fn output_path(input: &str, kind: AssetKind, place: &Placement) -> (r: String)
    ensures
        r@ == spec_output_path(input@, kind, *place),
{
    let mut r = match place {
        Placement::InPlace => parent_dir(input),
        Placement::CopyTo(d) => d.clone(),
    };
    r.append("/");
    let st = stem(input);
    r.append(st.as_str());
    r.append(".");
    r.append(output_extension(kind));
    proof {
        assert(r@ =~= spec_output_path(input@, kind, *place));
    }
    r
}

/// No character of the input path's file name is a `/`; the same holds of
/// its stem, a prefix of the name.
proof fn lemma_stem_no_slash(p: Seq<char>)
    ensures
        forall|j: int| 0 <= j < spec_stem(p).len() ==> spec_stem(p)[j] != '/',
{
    lemma_last_index_of(p, '/');
    let name = spec_file_name(p);
    assert forall|j: int| 0 <= j < name.len() implies name[j] != '/' by {
        assert(name[j] == p[last_index_of(p, '/') + 1 + j]);
    }
    lemma_last_index_of(name, '.');
}

/// None of the three output extensions holds a `/`, and each starts after
/// the one `.` the path builder writes.
proof fn lemma_extension_no_slash(kind: AssetKind)
    ensures
        forall|j: int|
            0 <= j < spec_output_extension(kind).len() ==> spec_output_extension(kind)[j] != '/',
{
    reveal_strlit("png");
    reveal_strlit("m4a");
    reveal_strlit("ogg");
    let e = spec_output_extension(kind);
    assert(e.len() == 3);
    assert(e[0] != '/' && e[1] != '/' && e[2] != '/');
}

/// The output file's name is the input's stem, a `.`, and the kind's
/// extension: the stem carries over and the extension is the mapped one.
pub proof fn lemma_output_file_name(input: Seq<char>, kind: AssetKind, place: Placement)
    ensures
        spec_file_name(spec_output_path(input, kind, place)) == spec_stem(input) + "."@
            + spec_output_extension(kind),
{
    let dir = spec_output_dir(input, place);
    let r = spec_output_path(input, kind, place);
    let st = spec_stem(input);
    let ext = spec_output_extension(kind);
    reveal_strlit("/");
    reveal_strlit(".");
    lemma_stem_no_slash(input);
    lemma_extension_no_slash(kind);
    let slash = dir.len() as int;
    assert(r[slash] == '/');
    assert forall|j: int| slash < j < r.len() implies r[j] != '/' by {
        if j < slash + 1 + st.len() {
            assert(r[j] == st[j - slash - 1]);
        } else if j == slash + 1 + st.len() {
            assert(r[j] == '.');
        } else {
            assert(r[j] == ext[j - (slash + 2 + st.len())]);
        }
    }
    lemma_last_index_of_unique(r, '/', slash);
    assert(spec_file_name(r) =~= st + "."@ + ext);
}

/// In copy mode every output is a direct child of the output directory:
/// the path is the directory, a `/`, and a file name without any `/`,
/// whatever the input's nesting depth.
pub proof fn lemma_copy_mode_flat(input: Seq<char>, kind: AssetKind, out_dir: String)
    ensures
        spec_output_path(input, kind, Placement::CopyTo(out_dir)).subrange(
            0,
            out_dir@.len() as int,
        ) == out_dir@,
        spec_output_path(input, kind, Placement::CopyTo(out_dir))[out_dir@.len() as int] == '/',
        forall|j: int|
            out_dir@.len() < j < spec_output_path(input, kind, Placement::CopyTo(out_dir)).len()
                ==> spec_output_path(input, kind, Placement::CopyTo(out_dir))[j] != '/',
{
    let r = spec_output_path(input, kind, Placement::CopyTo(out_dir));
    let st = spec_stem(input);
    let ext = spec_output_extension(kind);
    reveal_strlit("/");
    reveal_strlit(".");
    lemma_stem_no_slash(input);
    lemma_extension_no_slash(kind);
    let slash = out_dir@.len() as int;
    assert(r.subrange(0, slash) =~= out_dir@);
    assert(r[slash] == '/');
    assert forall|j: int| slash < j < r.len() implies r[j] != '/' by {
        if j < slash + 1 + st.len() {
            assert(r[j] == st[j - slash - 1]);
        } else if j == slash + 1 + st.len() {
            assert(r[j] == '.');
        } else {
            assert(r[j] == ext[j - (slash + 2 + st.len())]);
        }
    }
}

} // verus!
