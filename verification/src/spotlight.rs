//! The images of the local lock-screen cache that are large enough to be
//! wallpapers.

use vstd::prelude::*;

verus! {

/// A file of the cache: where it lies, and what it holds.
pub struct AssetFile {
    pub path: String,
    pub bytes: Vec<u8>,
}

/// An image of the cache: where it lies, and its size in pixels.
#[derive(Debug, PartialEq, Eq, Clone)]
pub struct LocalAsset {
    pub path: String,
    pub width: u32,
    pub height: u32,
}

pub struct AssetView {
    pub path: Seq<char>,
    pub width: nat,
    pub height: nat,
}

impl View for LocalAsset {
    type V = AssetView;

    open spec fn view(&self) -> AssetView {
        AssetView { path: self.path@, width: self.width as nat, height: self.height as nat }
    }
}

/// Where the files of the cache lie below the directory of local
/// application data, as a pattern.
pub const ASSETS_GLOB: &'static str = "Packages\\*ContentDeliveryManager*\\LocalState\\Assets\\*";

/// The width below which an image is no wallpaper.
pub const MIN_WIDTH: u32 = 1920;

/// The height below which an image is no wallpaper.
pub const MIN_HEIGHT: u32 = 1080;

/// An image is large enough where neither its width nor its height is
/// below the least asked for.
pub open spec fn large_enough(asset: AssetView, min_width: nat, min_height: nat) -> bool {
    asset.width >= min_width && asset.height >= min_height
}

/// The images that are large enough, in their order.
pub open spec fn kept(assets: Seq<AssetView>, min_width: nat, min_height: nat) -> Seq<AssetView>
    decreases assets.len(),
{
    if assets.len() == 0 {
        Seq::empty()
    } else if large_enough(assets.last(), min_width, min_height) {
        kept(assets.drop_last(), min_width, min_height).push(assets.last())
    } else {
        kept(assets.drop_last(), min_width, min_height)
    }
}

/// The images among files of which some have a size and some have none,
/// in their order.
pub open spec fn sized(paths: Seq<Seq<char>>, sizes: Seq<Option<(u32, u32)>>) -> Seq<AssetView>
    decreases paths.len(),
{
    if paths.len() == 0 || sizes.len() != paths.len() {
        Seq::empty()
    } else {
        match sizes.last() {
            Some((w, h)) => sized(paths.drop_last(), sizes.drop_last()).push(
                AssetView { path: paths.last(), width: w as nat, height: h as nat },
            ),
            None => sized(paths.drop_last(), sizes.drop_last()),
        }
    }
}

pub open spec fn asset_views(assets: Seq<LocalAsset>) -> Seq<AssetView> {
    assets.map_values(|a: LocalAsset| a@)
}

pub open spec fn file_paths(files: Seq<AssetFile>) -> Seq<Seq<char>> {
    files.map_values(|f: AssetFile| f.path@)
}

/// Width and height of the image that `image::load_from_memory_with_format`
/// decodes from the bytes, in the format that `image::guess_format` finds
/// at their start; nothing where no format is found or the bytes cannot be
/// decoded.
pub uninterp spec fn decoded_size(bytes: Seq<u8>) -> Option<(u32, u32)>;

/// What decoding gives for each of the files.
pub open spec fn decoded_sizes(files: Seq<AssetFile>) -> Seq<Option<(u32, u32)>> {
    files.map_values(|f: AssetFile| decoded_size(f.bytes@))
}

/// Calls `image::guess_format` and, with the format found,
/// `image::load_from_memory_with_format`, and reads width and height of
/// what was decoded. The contract only names the result.
#[verifier::external_body]
fn decode_size(bytes: &[u8]) -> (r: Option<(u32, u32)>)
    ensures
        r == decoded_size(bytes@),
{
    let format = image::guess_format(bytes).ok()?;
    image::load_from_memory_with_format(bytes, format).ok().map(|i| (i.width(), i.height()))
}

impl LocalAsset {
    /// Neither width nor height is below the least asked for.
    pub fn is_large_enough(&self, min_width: u32, min_height: u32) -> (r: bool)
        ensures
            r == large_enough(self@, min_width as nat, min_height as nat),
    {
        self.width >= min_width && self.height >= min_height
    }
}

/// Keeps the images that are large enough.
pub fn retain_large(assets: Vec<LocalAsset>, min_width: u32, min_height: u32) -> (r: Vec<LocalAsset>)
    ensures
        asset_views(r@) == kept(asset_views(assets@), min_width as nat, min_height as nat),
{
    let ghost all = asset_views(assets@);
    let ghost given = assets@;
    let mut assets = assets;
    let mut r: Vec<LocalAsset> = Vec::new();
    let mut taken: Ghost<int> = Ghost(0);
    assert(all.take(0) =~= Seq::<AssetView>::empty());
    assert(asset_views(r@) =~= Seq::<AssetView>::empty());
    assert(given.skip(0) =~= given);
    while assets.len() > 0
        invariant
            0 <= taken@ <= all.len(),
            all == asset_views(given),
            assets@ == given.skip(taken@),
            asset_views(r@) == kept(all.take(taken@), min_width as nat, min_height as nat),
        decreases assets.len(),
    {
        let asset = assets.remove(0);
        let ghost next = all.take(taken@ + 1);
        let ghost before = asset_views(r@);
        proof {
            assert(next.drop_last() =~= all.take(taken@));
            assert(next.last() == all[taken@]);
            assert(asset == given[taken@]);
            assert(asset@ == all[taken@]);
            assert(assets@ =~= given.skip(taken@ + 1));
        }
        if asset.is_large_enough(min_width, min_height) {
            let ghost view = asset@;
            r.push(asset);
            assert(asset_views(r@) =~= before.push(view));
        }
        proof {
            taken@ = taken@ + 1;
        }
    }
    assert(all.take(taken@) =~= all);
    r
}

/// Gives the images that are large enough among files of which each has
/// the size that decoding gave for it, or none where it could not be
/// decoded: a file without a size is no image. Sizes that are not one for
/// each file select nothing.
pub fn select_images(
    files: Vec<AssetFile>,
    sizes: Vec<Option<(u32, u32)>>,
    min_width: u32,
    min_height: u32,
) -> (r: Vec<LocalAsset>)
    ensures
        asset_views(r@) == kept(
            sized(file_paths(files@), sizes@),
            min_width as nat,
            min_height as nat,
        ),
{
    let ghost paths = file_paths(files@);
    let ghost given = files@;
    let mut files = files;
    let mut found: Vec<LocalAsset> = Vec::new();
    assert(asset_views(found@) =~= Seq::<AssetView>::empty());
    if files.len() != sizes.len() {
        return found;
    }
    let mut k: usize = 0;
    assert(given.skip(0) =~= given);
    while k < sizes.len()
        invariant
            k <= sizes.len(),
            sizes.len() == paths.len(),
            paths == file_paths(given),
            files@ == given.skip(k as int),
            asset_views(found@) == sized(paths.take(k as int), sizes@.take(k as int)),
        decreases sizes.len() - k,
    {
        let file = files.remove(0);
        let ghost before = asset_views(found@);
        proof {
            assert(file == given[k as int]);
            assert(file.path@ == paths[k as int]);
            assert(files@ =~= given.skip(k + 1));
            assert(paths.take(k + 1).drop_last() =~= paths.take(k as int));
            assert(sizes@.take(k + 1).drop_last() =~= sizes@.take(k as int));
            assert(sizes@.take(k + 1).last() == sizes@[k as int]);
            assert(paths.take(k + 1).last() == paths[k as int]);
        }
        match sizes[k] {
            Some((width, height)) => {
                let asset = LocalAsset { path: file.path, width, height };
                let ghost view = asset@;
                found.push(asset);
                assert(asset_views(found@) =~= before.push(view));
            },
            None => {},
        }
        k = k + 1;
    }
    assert(paths.take(k as int) =~= paths);
    assert(sizes@.take(k as int) =~= sizes@);
    retain_large(found, min_width, min_height)
}

/// Decodes each file and gives the images that are large enough: a file
/// that cannot be decoded is no image.
pub fn get_images(files: Vec<AssetFile>, min_width: u32, min_height: u32) -> (r: Vec<LocalAsset>)
    ensures
        asset_views(r@) == kept(
            sized(file_paths(files@), decoded_sizes(files@)),
            min_width as nat,
            min_height as nat,
        ),
{
    let mut sizes: Vec<Option<(u32, u32)>> = Vec::new();
    let mut k: usize = 0;
    while k < files.len()
        invariant
            k <= files.len(),
            sizes@ == decoded_sizes(files@).take(k as int),
        decreases files.len() - k,
    {
        let size = decode_size(files[k].bytes.as_slice());
        sizes.push(size);
        assert(sizes@ =~= decoded_sizes(files@).take(k + 1));
        k = k + 1;
    }
    assert(sizes@ =~= decoded_sizes(files@));
    select_images(files, sizes, min_width, min_height)
}

} // verus!
