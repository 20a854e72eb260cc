//! The asset discoverer: picks out of a directory listing the files whose
//! extension marks them as encrypted assets, tagging each with its kind.
//! A file spelled like the key configuration file is never an asset,
//! whatever its extension.

use vstd::prelude::*;
use crate::paths::{
    is_config_name, is_config_file_name, spec_file_name, spec_extension, file_name, extension,
    str_eq,
};

verus! {

/// The three recognized asset kinds.
#[derive(Clone, Copy, PartialEq, Eq, Structural, Debug)]
pub enum AssetKind {
    Picture,
    AudioVoice,
    AudioSound,
}

/// The kind an input extension marks, if any: `rpgmvp` a picture,
/// `rpgmvm` a voice recording, `rpgmvo` a sound.
pub open spec fn spec_kind_for_extension(ext: Seq<char>) -> Option<AssetKind> {
    if ext == "rpgmvp"@ {
        Some(AssetKind::Picture)
    } else if ext == "rpgmvm"@ {
        Some(AssetKind::AudioVoice)
    } else if ext == "rpgmvo"@ {
        Some(AssetKind::AudioSound)
    } else {
        None
    }
}

pub fn kind_for_extension(ext: &str) -> (r: Option<AssetKind>)
    ensures
        r == spec_kind_for_extension(ext@),
{
    if str_eq(ext, "rpgmvp") {
        Some(AssetKind::Picture)
    } else if str_eq(ext, "rpgmvm") {
        Some(AssetKind::AudioVoice)
    } else if str_eq(ext, "rpgmvo") {
        Some(AssetKind::AudioSound)
    } else {
        None
    }
}

/// The extension a decrypted asset of this kind is written under.
pub open spec fn spec_output_extension(kind: AssetKind) -> Seq<char> {
    match kind {
        AssetKind::Picture => "png"@,
        AssetKind::AudioVoice => "m4a"@,
        AssetKind::AudioSound => "ogg"@,
    }
}

pub fn output_extension(kind: AssetKind) -> (r: &'static str)
    ensures
        r@ == spec_output_extension(kind),
{
    match kind {
        AssetKind::Picture => "png",
        AssetKind::AudioVoice => "m4a",
        AssetKind::AudioSound => "ogg",
    }
}

/// A discovered asset: its path and the kind its extension marks.
pub struct AssetRef {
    pub path: String,
    pub kind: AssetKind,
}

impl View for AssetRef {
    type V = (Seq<char>, AssetKind);

    open spec fn view(&self) -> (Seq<char>, AssetKind) {
        (self.path@, self.kind)
    }
}

/// The kind of the file at `path` as the discoverer sees it: none for a
/// configuration file, else the kind its extension marks.
pub open spec fn spec_asset_kind(path: Seq<char>) -> Option<AssetKind> {
    if is_config_name(spec_file_name(path)) {
        None
    } else {
        match spec_extension(path) {
            Some(e) => spec_kind_for_extension(e),
            None => None,
        }
    }
}

/// The assets among `paths`, in order: each path whose file is an asset,
/// paired with its kind.
pub open spec fn spec_discover(paths: Seq<Seq<char>>) -> Seq<(Seq<char>, AssetKind)>
    decreases paths.len(),
{
    if paths.len() == 0 {
        Seq::empty()
    } else {
        let front = spec_discover(paths.drop_last());
        match spec_asset_kind(paths.last()) {
            Some(k) => front.push((paths.last(), k)),
            None => front,
        }
    }
}

/// Collect the asset files out of a directory listing, in listing order.
pub fn discover_assets(paths: &Vec<String>) -> (r: Vec<AssetRef>)
    ensures
        r@.map_values(|a: AssetRef| a@) == spec_discover(paths.deep_view()),
{
    let ghost all = paths.deep_view();
    let mut r: Vec<AssetRef> = Vec::new();
    let mut i: usize = 0;
    while i < paths.len()
        invariant
            i <= paths.len(),
            all == paths.deep_view(),
            all.len() == paths.len(),
            r@.map_values(|a: AssetRef| a@) == spec_discover(all.take(i as int)),
        decreases paths.len() - i,
    {
        let path = &paths[i];
        let name = file_name(path.as_str());
        if !is_config_file_name(name.as_str()) {
            match extension(path.as_str()) {
                Some(e) => {
                    match kind_for_extension(e.as_str()) {
                        Some(k) => {
                            r.push(AssetRef { path: path.clone(), kind: k });
                        },
                        None => {},
                    }
                },
                None => {},
            }
        }
        i = i + 1;
        proof {
            assert(all.take(i as int).drop_last() =~= all.take(i - 1));
            assert(all.take(i as int).last() == all[i - 1]);
            assert(r@.map_values(|a: AssetRef| a@) =~= spec_discover(all.take(i as int)));
        }
    }
    proof {
        assert(all.take(paths.len() as int) =~= all);
    }
    r
}

/// The discoverer never lists a configuration file: every discovered
/// path's file name differs from both spellings of the configuration
/// file's name, whatever extension that file carries.
pub proof fn lemma_discover_excludes_config(paths: Seq<Seq<char>>, i: int)
    requires
        0 <= i < spec_discover(paths).len(),
    ensures
        !is_config_name(spec_file_name(spec_discover(paths)[i].0)),
    decreases paths.len(),
{
    if paths.len() > 0 {
        let front = spec_discover(paths.drop_last());
        if i < front.len() {
            lemma_discover_excludes_config(paths.drop_last(), i);
        }
    }
}

} // verus!
