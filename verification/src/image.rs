//! The guest image: a kernel, an initramfs and a read-only root filesystem, given either as a
//! plain directory or as an OCI image layout whose layers are those three files.
//!
//! The OCI form is what a release publishes and what a host pins by digest. The monitor reads
//! the layout from disk; it never pulls. Blobs up to [`VERIFY_MAX_BYTES`] are hashed on every
//! boot and refused on a mismatch; the root filesystem is larger than that and is checked by
//! size, because the host verified the artefact's digest and signature when it pulled it.

pub mod laws;

use crate::error::{Result, VmmError, VmmErrorView};
use crate::layout::Arch;
use crate::paths::{join, joined};
use crate::text::{
    begins, cat2, cat3, cat4, chars_of, debug_text, dec, dec_text, digit_char, quoted, same,
    strip_prefix,
};
use vstd::prelude::*;

verus! {

/// The OCI media type of the kernel layer.
pub const MEDIA_KERNEL: &'static str = "application/vnd.moruna.guest.kernel.v1";

/// The OCI media type of the initramfs layer (a gzip-compressed newc cpio archive).
pub const MEDIA_INITRAMFS: &'static str = "application/vnd.moruna.guest.initramfs.v1+gzip";

/// The OCI media type of the root filesystem layer (an EROFS image).
pub const MEDIA_ROOTFS: &'static str = "application/vnd.moruna.guest.rootfs.v1.erofs";

/// The OCI artifact type of the whole image.
pub const ARTIFACT_TYPE: &'static str = "application/vnd.moruna.guest.v1";

/// Blobs at most this large are hashed at every boot: the kernel and the initramfs.
pub const VERIFY_MAX_BYTES: u64 = 67108864;

/// The kernel file names a directory image may use, in order of preference.
pub fn kernel_names(arch: Arch) -> (v: Vec<&'static str>)
    ensures
        v@ == (match arch {
            Arch::X86_64 => seq!["vmlinux", "bzImage"],
            Arch::Aarch64 => seq!["Image"],
        }),
{
    let mut v: Vec<&'static str> = Vec::new();
    match arch {
        Arch::X86_64 => {
            v.push("vmlinux");
            v.push("bzImage");
            assert(v@ =~= seq!["vmlinux", "bzImage"]);
        },
        Arch::Aarch64 => {
            v.push("Image");
            assert(v@ =~= seq!["Image"]);
        },
    }
    v
}

/// The initramfs file names a directory image may use.
pub fn initramfs_names() -> (v: Vec<&'static str>)
    ensures
        v@ == seq!["initramfs.cpio.gz", "initramfs.cpio"],
{
    let mut v: Vec<&'static str> = Vec::new();
    v.push("initramfs.cpio.gz");
    v.push("initramfs.cpio");
    assert(v@ =~= seq!["initramfs.cpio.gz", "initramfs.cpio"]);
    v
}

/// The root filesystem file names a directory image may use.
pub fn rootfs_names() -> (v: Vec<&'static str>)
    ensures
        v@ == seq!["rootfs.erofs"],
{
    let mut v: Vec<&'static str> = Vec::new();
    v.push("rootfs.erofs");
    assert(v@ =~= seq!["rootfs.erofs"]);
    v
}

/// An architecture's name in an OCI platform.
pub open spec fn oci_name(arch: Arch) -> Seq<char> {
    match arch {
        Arch::X86_64 => "amd64"@,
        Arch::Aarch64 => "arm64"@,
    }
}

/// An architecture's name in an OCI platform.
pub fn oci_arch(arch: Arch) -> (s: &'static str)
    ensures
        s@ == oci_name(arch),
{
    match arch {
        Arch::X86_64 => "amd64",
        Arch::Aarch64 => "arm64",
    }
}

/// A resolved image: three files on disk.
#[derive(Clone, Debug, PartialEq, Eq)]
pub struct GuestImage {
    /// The kernel.
    pub kernel: String,
    /// The initramfs, if the image has one.
    pub initramfs: Option<String>,
    /// The root filesystem, attached read-only as the first block device, if the image has one.
    pub rootfs: Option<String>,
    /// The manifest digest, when the image is an OCI layout.
    pub digest: Option<String>,
}

/// A [`GuestImage`] with its texts as character sequences.
#[verifier::ext_equal]
pub struct ImageView {
    pub kernel: Seq<char>,
    pub initramfs: Option<Seq<char>>,
    pub rootfs: Option<Seq<char>>,
    pub digest: Option<Seq<char>>,
}

/// The text of an optional string.
pub open spec fn text_view(s: Option<String>) -> Option<Seq<char>> {
    match s {
        Some(t) => Some(t@),
        None => None,
    }
}

impl View for GuestImage {
    type V = ImageView;

    open spec fn view(&self) -> ImageView {
        ImageView {
            kernel: self.kernel@,
            initramfs: text_view(self.initramfs),
            rootfs: text_view(self.rootfs),
            digest: text_view(self.digest),
        }
    }
}

/// The platform an OCI manifest is for.
#[derive(Clone, Debug, PartialEq, Eq)]
pub struct Platform {
    pub architecture: String,
    pub os: String,
}

/// An OCI descriptor: a blob's type, digest and size, and the platform it is for.
#[derive(Clone, Debug, PartialEq, Eq)]
pub struct Descriptor {
    pub media_type: String,
    pub digest: String,
    pub size: u64,
    pub platform: Option<Platform>,
}

/// An OCI manifest, as far as a guest image needs it.
#[derive(Clone, Debug, PartialEq, Eq)]
pub struct Manifest {
    pub artifact_type: Option<String>,
    pub layers: Vec<Descriptor>,
}

/// A refusal of an image, naming the path.
pub open spec fn image_error(path: Seq<char>, msg: Seq<char>) -> VmmErrorView {
    VmmErrorView::Image { path, msg }
}

fn err(path: &str, msg: String) -> (e: VmmError)
    ensures
        e@ == image_error(path@, msg@),
{
    VmmError::Image { path: path.to_owned(), msg }
}

/// The form of an image.
#[derive(Clone, Copy, Debug, PartialEq, Eq, Structural)]
pub enum Form {
    /// A plain directory.
    Directory,
    /// An OCI image layout.
    Oci,
}

/// The form of the image at `path`, from whether it is a directory and whether it holds the file
/// `oci-layout`.
pub fn form_of(path: &str, is_dir: bool, has_oci_layout: bool) -> (r: Result<Form>)
    ensures
        r is Ok <==> is_dir,
        r matches Ok(f) ==> f == (if has_oci_layout {
            Form::Oci
        } else {
            Form::Directory
        }),
        r matches Err(e) ==> e@ == image_error(
            path@,
            "not a directory (an image directory or an OCI layout)"@,
        ),
{
    if !is_dir {
        return Err(
            err(path, "not a directory (an image directory or an OCI layout)".to_owned()),
        );
    }
    if has_oci_layout {
        Ok(Form::Oci)
    } else {
        Ok(Form::Directory)
    }
}

/// The first of some names whose file is there, inside `dir`.
pub open spec fn first_of(
    dir: Seq<char>,
    names: Seq<&'static str>,
    present: Seq<bool>,
) -> Option<Seq<char>>
    decreases names.len(),
{
    if names.len() == 0 || present.len() == 0 {
        None
    } else if present[0] {
        Some(joined(dir, names[0]@))
    } else {
        first_of(
            dir,
            names.subrange(1, names.len() as int),
            present.subrange(1, present.len() as int),
        )
    }
}

/// The first of `names` whose file is there, inside `dir`.
pub fn first_existing(dir: &str, names: &Vec<&'static str>, present: &Vec<bool>) -> (r: Option<
    String,
>)
    requires
        names@.len() == present@.len(),
    ensures
        text_view(r) == first_of(dir@, names@, present@),
{
    let mut i: usize = 0;
    assert(names@.subrange(0, names@.len() as int) =~= names@);
    assert(present@.subrange(0, present@.len() as int) =~= present@);
    while i < names.len()
        invariant
            i <= names@.len() == present@.len(),
            first_of(
                dir@,
                names@.subrange(i as int, names@.len() as int),
                present@.subrange(i as int, names@.len() as int),
            ) == first_of(dir@, names@, present@),
        decreases names@.len() - i,
    {
        let ghost n = names@.subrange(i as int, names@.len() as int);
        let ghost p = present@.subrange(i as int, names@.len() as int);
        if present[i] {
            assert(p[0] && n[0] == names@[i as int]);
            return Some(join(dir, names[i]));
        }
        assert(n.subrange(1, n.len() as int) =~= names@.subrange(i + 1, names@.len() as int));
        assert(p.subrange(1, p.len() as int) =~= present@.subrange(i + 1, names@.len() as int));
        i += 1;
    }
    None
}

/// What a directory image's kernel is expected to be called.
pub open spec fn expected_kernels(arch: Arch) -> Seq<char> {
    match arch {
        Arch::X86_64 => "vmlinux, bzImage"@,
        Arch::Aarch64 => "Image"@,
    }
}

/// Which files a directory image holds, of the names it may use.
pub struct DirFacts {
    pub kernels: Vec<bool>,
    pub initramfs: Vec<bool>,
    pub rootfs: Vec<bool>,
}

/// The kernel of a directory image.
pub open spec fn dir_kernel(arch: Arch, dir: Seq<char>, facts: DirFacts) -> Option<Seq<char>> {
    first_of(
        dir,
        match arch {
            Arch::X86_64 => seq!["vmlinux", "bzImage"],
            Arch::Aarch64 => seq!["Image"],
        },
        facts.kernels@,
    )
}

/// Resolve a directory image from the files it holds.
pub fn resolve_dir(arch: Arch, dir: &str, facts: &DirFacts) -> (r: Result<GuestImage>)
    requires
        facts.kernels@.len() == (match arch {
            Arch::X86_64 => 2nat,
            Arch::Aarch64 => 1nat,
        }),
        facts.initramfs@.len() == 2,
        facts.rootfs@.len() == 1,
    ensures
        r is Ok <==> dir_kernel(arch, dir@, *facts) is Some,
        r matches Ok(img) ==> img@ == (ImageView {
            kernel: dir_kernel(arch, dir@, *facts)->Some_0,
            initramfs: first_of(
                dir@,
                seq!["initramfs.cpio.gz", "initramfs.cpio"],
                facts.initramfs@,
            ),
            rootfs: first_of(dir@, seq!["rootfs.erofs"], facts.rootfs@),
            digest: None,
        }),
        r matches Err(e) ==> e@ == image_error(
            dir@,
            "no kernel; expected one of "@ + expected_kernels(arch),
        ),
{
    let kernel = match first_existing(dir, &kernel_names(arch), &facts.kernels) {
        Some(k) => k,
        None => {
            let expected = match arch {
                Arch::X86_64 => "vmlinux, bzImage",
                Arch::Aarch64 => "Image",
            };
            return Err(err(dir, cat2("no kernel; expected one of ", expected)));
        },
    };
    let initramfs = first_existing(dir, &initramfs_names(), &facts.initramfs);
    let rootfs = first_existing(dir, &rootfs_names(), &facts.rootfs);
    Ok(GuestImage { kernel, initramfs, rootfs, digest: None })
}

/// A lower-case hexadecimal digit.
pub open spec fn lower_hex(c: char) -> bool {
    '0' <= c && c <= '9' || 'a' <= c && c <= 'f'
}

/// Whether a digest's hexadecimal part is well formed.
pub open spec fn hex_ok(s: Seq<char>) -> bool {
    s.len() == 64 && forall|i: int| 0 <= i < s.len() ==> lower_hex(#[trigger] s[i])
}

/// The hexadecimal part of a digest that has one.
pub open spec fn hex_part(digest: Seq<char>) -> Seq<char> {
    digest.subrange("sha256:"@.len() as int, digest.len() as int)
}

/// Whether a digest is a SHA-256 digest, well formed.
pub open spec fn digest_ok(digest: Seq<char>) -> bool {
    begins(digest, "sha256:"@) && hex_ok(hex_part(digest))
}

/// Where the blob of a digest lies in a layout.
pub open spec fn blob_at(dir: Seq<char>, digest: Seq<char>) -> Seq<char> {
    joined(joined(joined(dir, "blobs"@), "sha256"@), hex_part(digest))
}

/// The refusal of a digest that is not one.
pub open spec fn digest_error(dir: Seq<char>, digest: Seq<char>) -> VmmErrorView {
    image_error(
        dir,
        "digest "@ + digest + if begins(digest, "sha256:"@) {
            " is malformed"@
        } else {
            " is not sha256"@
        },
    )
}

/// Where the blob of `digest` lies in the layout at `dir`.
pub fn blob_path(dir: &str, digest: &str) -> (r: Result<String>)
    ensures
        r is Ok <==> digest_ok(digest@),
        r matches Ok(p) ==> p@ == blob_at(dir@, digest@),
        r matches Err(e) ==> e@ == digest_error(dir@, digest@),
{
    let hex = match strip_prefix(digest, "sha256:") {
        Some(h) => h,
        None => {
            return Err(err(dir, cat3("digest ", digest, " is not sha256")));
        },
    };
    let v = chars_of(&hex);
    let mut good = v.len() == 64;
    let mut i: usize = 0;
    while i < v.len()
        invariant
            i <= v@.len(),
            good == (v@.len() == 64 && forall|k: int| 0 <= k < i ==> lower_hex(#[trigger] v@[k])),
        decreases v@.len() - i,
    {
        let c = v[i];
        if !('0' <= c && c <= '9' || 'a' <= c && c <= 'f') {
            good = false;
            assert(!lower_hex(v@[i as int]));
        }
        i += 1;
    }
    if !good {
        return Err(err(dir, cat3("digest ", digest, " is malformed")));
    }
    let blobs = join(dir, "blobs");
    let algorithm = join(&blobs, "sha256");
    Ok(join(&algorithm, &hex))
}

/// A running SHA-256.
#[verifier::external_type_specification]
#[verifier::external_body]
pub struct ExSha256(sha2::Sha256);

/// What a running hash was fed.
pub uninterp spec fn hash_fed(h: sha2::Sha256) -> Seq<u8>;

/// The SHA-256 of some bytes.
pub uninterp spec fn sha256_of(b: Seq<u8>) -> Seq<u8>;

/// `sha2::Sha256::new`: fed nothing yet.
#[verifier::external_body]
fn hash_new() -> (h: sha2::Sha256)
    ensures
        hash_fed(h) == Seq::<u8>::empty(),
{
    sha2::Digest::new()
}

/// `sha2::Digest::update`.
#[verifier::external_body]
fn hash_update(h: &mut sha2::Sha256, b: &[u8])
    ensures
        hash_fed(*final(h)) == hash_fed(*old(h)) + b@,
{
    sha2::Digest::update(h, b)
}

/// `sha2::Digest::finalize`: the 32 bytes of the hash.
#[verifier::external_body]
fn hash_finish(h: sha2::Sha256) -> (r: Vec<u8>)
    ensures
        r@ == sha256_of(hash_fed(h)),
        r@.len() == 32,
{
    sha2::Digest::finalize(h).to_vec()
}

/// Two lower-case hexadecimal digits per byte.
pub open spec fn hex_text(b: Seq<u8>) -> Seq<char>
    decreases b.len(),
{
    if b.len() == 0 {
        Seq::empty()
    } else {
        hex_text(b.drop_last()).push(digit_char(b.last() as nat / 16)).push(
            digit_char(b.last() as nat % 16),
        )
    }
}

fn hex_digit(d: u8) -> (c: char)
    requires
        d < 16,
    ensures
        c == digit_char(d as nat),
{
    if d < 10 {
        (48u8 + d) as char
    } else {
        (87u8 + d) as char
    }
}

/// Two lower-case hexadecimal digits per byte.
pub fn hex(bytes: &[u8]) -> (s: String)
    ensures
        s@ == hex_text(bytes@),
{
    let mut s = String::new();
    let mut i: usize = 0;
    while i < bytes.len()
        invariant
            i <= bytes@.len(),
            s@ == hex_text(bytes@.take(i as int)),
        decreases bytes@.len() - i,
    {
        s.push(hex_digit(bytes[i] / 16));
        s.push(hex_digit(bytes[i] % 16));
        assert(bytes@.take(i + 1).drop_last() =~= bytes@.take(i as int));
        i += 1;
    }
    assert(bytes@.take(i as int) =~= bytes@);
    s
}

/// The digest of some bytes, as a descriptor writes it.
pub open spec fn digest_of(b: Seq<u8>) -> Seq<char> {
    "sha256:"@ + hex_text(sha256_of(b))
}

/// The digest of a file, fed piece by piece.
pub struct FileHash {
    state: sha2::Sha256,
}

impl View for FileHash {
    type V = Seq<u8>;

    closed spec fn view(&self) -> Seq<u8> {
        hash_fed(self.state)
    }
}

impl FileHash {
    /// A hash that was fed nothing.
    pub fn new() -> (h: Self)
        ensures
            h@ == Seq::<u8>::empty(),
    {
        FileHash { state: hash_new() }
    }

    /// Feed the next piece.
    pub fn update(&mut self, piece: &[u8])
        ensures
            final(self)@ == old(self)@ + piece@,
    {
        hash_update(&mut self.state, piece)
    }

    /// `sha256:<hex>` of what was fed.
    pub fn finish(self) -> (s: String)
        ensures
            s@ == digest_of(self@),
    {
        let b = hash_finish(self.state);
        let h = hex(b.as_slice());
        cat2("sha256:", &h)
    }
}

/// What was found where a blob should be.
#[derive(Clone, Debug, PartialEq, Eq)]
pub enum BlobFact {
    /// Nothing that can be read, and why.
    Missing(String),
    /// A file of this size, with its digest where it was hashed.
    Found(u64, Option<String>),
}

/// What checking a blob comes to: its path, or why it is refused.
pub enum Checked {
    Good(Seq<char>),
    Refused(VmmErrorView),
}

/// What checking a blob comes to: its size, and its digest when it is small enough.
pub open spec fn blob_checked(dir: Seq<char>, d: Descriptor, fact: BlobFact) -> Checked {
    let path = blob_at(dir, d.digest@);
    if !digest_ok(d.digest@) {
        Checked::Refused(digest_error(dir, d.digest@))
    } else {
        match fact {
            BlobFact::Missing(why) => Checked::Refused(image_error(path, why@)),
            BlobFact::Found(size, got) => if size != d.size {
                Checked::Refused(
                    image_error(
                        path,
                        "size "@ + dec(size as nat) + " but the manifest says "@ + dec(
                            d.size as nat,
                        ),
                    ),
                )
            } else if d.size <= VERIFY_MAX_BYTES && got->Some_0@ != d.digest@ {
                Checked::Refused(
                    image_error(
                        path,
                        "digest "@ + got->Some_0@ + " but the manifest says "@ + d.digest@,
                    ),
                )
            } else {
                Checked::Good(path)
            },
        }
    }
}

/// Whether a small blob that was found was hashed.
pub open spec fn hashed_if_small(fact: BlobFact) -> bool {
    fact matches BlobFact::Found(size, got) ==> size <= VERIFY_MAX_BYTES ==> got is Some
}

/// Check a blob's size, and its digest when it is small enough.
pub fn verify_blob(dir: &str, d: &Descriptor, fact: &BlobFact) -> (r: Result<String>)
    requires
        hashed_if_small(*fact),
    ensures
        match blob_checked(dir@, *d, *fact) {
            Checked::Good(p) => r matches Ok(s) && s@ == p,
            Checked::Refused(why) => r matches Err(e) && e@ == why,
        },
{
    let p = blob_path(dir, &d.digest)?;
    match fact {
        BlobFact::Missing(why) => Err(err(&p, why.clone())),
        BlobFact::Found(size, got) => {
            if *size != d.size {
                let a = dec_text(*size);
                let b = dec_text(d.size);
                return Err(err(&p, cat4("size ", &a, " but the manifest says ", &b)));
            }
            if d.size <= VERIFY_MAX_BYTES {
                match got {
                    Some(g) => {
                        if !same(g, &d.digest) {
                            return Err(
                                err(&p, cat4("digest ", g, " but the manifest says ", &d.digest)),
                            );
                        }
                    },
                    None => {},
                }
            }
            Ok(p)
        },
    }
}

/// An accepted blob has the size its descriptor says, and a small one has its digest.
pub proof fn law_accepted_blobs_are_what_the_manifest_says(
    dir: Seq<char>,
    d: Descriptor,
    size: u64,
    content: Seq<u8>,
    got: String,
)
    requires
        got@ == digest_of(content),
        blob_checked(dir, d, BlobFact::Found(size, Some(got))) is Good,
    ensures
        size == d.size,
        size <= VERIFY_MAX_BYTES ==> d.digest@ == digest_of(content),
{
}

/// Whether a manifest is for Linux on `arch`; one that names no platform is for any.
pub open spec fn suits(d: Descriptor, arch: Arch) -> bool {
    match d.platform {
        Some(p) => p.architecture@ == oci_name(arch) && p.os@ == "linux"@,
        None => true,
    }
}

/// How many of some manifests are for Linux on `arch`.
pub open spec fn suiting(m: Seq<Descriptor>, arch: Arch) -> nat
    decreases m.len(),
{
    if m.len() == 0 {
        0
    } else {
        suiting(m.drop_last(), arch) + if suits(m.last(), arch) {
            1nat
        } else {
            0nat
        }
    }
}

proof fn lemma_suiting(m: Seq<Descriptor>, arch: Arch, i: int)
    requires
        0 <= i <= m.len(),
    ensures
        suiting(m.take(i), arch) <= suiting(m, arch),
    decreases m.len() - i,
{
    if i == m.len() {
        assert(m.take(i) =~= m);
    } else {
        lemma_suiting(m, arch, i + 1);
        assert(m.take(i + 1).drop_last() =~= m.take(i));
    }
}

/// The one manifest of an index that is for Linux on `arch`.
pub fn choose_manifest(dir: &str, manifests: &Vec<Descriptor>, arch: Arch) -> (r: Result<usize>)
    ensures
        r is Ok <==> suiting(manifests@, arch) == 1,
        r matches Ok(i) ==> i < manifests@.len() && suits(manifests@[i as int], arch),
        r matches Err(e) ==> e@ == image_error(
            dir@,
            (if suiting(manifests@, arch) == 0 {
                "index.json has no manifest for linux/"@
            } else {
                "index.json has several manifests for linux/"@
            }) + oci_name(arch),
        ),
{
    let name = oci_arch(arch);
    let mut found: Option<usize> = None;
    let mut i: usize = 0;
    while i < manifests.len()
        invariant
            i <= manifests@.len(),
            name@ == oci_name(arch),
            suiting(manifests@.take(i as int), arch) == (if found is Some {
                1nat
            } else {
                0nat
            }),
            found matches Some(k) ==> k < i && suits(manifests@[k as int], arch),
        decreases manifests@.len() - i,
    {
        let fits = match &manifests[i].platform {
            Some(p) => same(&p.architecture, name) && same(&p.os, "linux"),
            None => true,
        };
        assert(manifests@.take(i + 1).drop_last() =~= manifests@.take(i as int));
        if fits {
            if found.is_some() {
                proof {
                    lemma_suiting(manifests@, arch, i + 1);
                }
                return Err(err(dir, cat2("index.json has several manifests for linux/", name)));
            }
            found = Some(i);
        }
        i += 1;
    }
    assert(manifests@.take(i as int) =~= manifests@);
    match found {
        Some(k) => Ok(k),
        None => Err(err(dir, cat2("index.json has no manifest for linux/", name))),
    }
}

/// The layers found so far.
#[verifier::ext_equal]
pub struct LayersView {
    pub kernel: Option<Seq<char>>,
    pub initramfs: Option<Seq<char>>,
    pub rootfs: Option<Seq<char>>,
}

/// What sorting the layers comes to.
pub enum Sorted {
    Good(LayersView),
    Refused(VmmErrorView),
}

/// What one layer adds to those found so far.
pub open spec fn layer_added(
    st: LayersView,
    dir: Seq<char>,
    manifest: Seq<char>,
    layer: Descriptor,
    fact: BlobFact,
) -> Sorted {
    let twice = Sorted::Refused(
        image_error(manifest, "two layers of type "@ + layer.media_type@),
    );
    if layer.media_type@ == MEDIA_KERNEL@ {
        match blob_checked(dir, layer, fact) {
            Checked::Refused(why) => Sorted::Refused(why),
            Checked::Good(p) => if st.kernel is Some {
                twice
            } else {
                Sorted::Good(LayersView { kernel: Some(p), ..st })
            },
        }
    } else if layer.media_type@ == MEDIA_INITRAMFS@ {
        match blob_checked(dir, layer, fact) {
            Checked::Refused(why) => Sorted::Refused(why),
            Checked::Good(p) => if st.initramfs is Some {
                twice
            } else {
                Sorted::Good(LayersView { initramfs: Some(p), ..st })
            },
        }
    } else if layer.media_type@ == MEDIA_ROOTFS@ {
        match blob_checked(dir, layer, fact) {
            Checked::Refused(why) => Sorted::Refused(why),
            Checked::Good(p) => if st.rootfs is Some {
                twice
            } else {
                Sorted::Good(LayersView { rootfs: Some(p), ..st })
            },
        }
    } else {
        Sorted::Refused(image_error(manifest, "unknown layer type "@ + layer.media_type@))
    }
}

/// What sorting the first `n` layers comes to.
pub open spec fn sorted(
    dir: Seq<char>,
    manifest: Seq<char>,
    layers: Seq<Descriptor>,
    facts: Seq<BlobFact>,
    n: nat,
) -> Sorted
    decreases n,
{
    if n == 0 {
        Sorted::Good(LayersView { kernel: None, initramfs: None, rootfs: None })
    } else {
        match sorted(dir, manifest, layers, facts, (n - 1) as nat) {
            Sorted::Refused(why) => Sorted::Refused(why),
            Sorted::Good(st) => layer_added(
                st,
                dir,
                manifest,
                layers[n - 1],
                facts[n - 1],
            ),
        }
    }
}

proof fn lemma_refused_stays(
    dir: Seq<char>,
    manifest: Seq<char>,
    layers: Seq<Descriptor>,
    facts: Seq<BlobFact>,
    i: nat,
    n: nat,
)
    requires
        i <= n,
        sorted(dir, manifest, layers, facts, i) is Refused,
    ensures
        sorted(dir, manifest, layers, facts, n) == sorted(dir, manifest, layers, facts, i),
    decreases n - i,
{
    if i < n {
        lemma_refused_stays(dir, manifest, layers, facts, i + 1, n);
    }
}

/// The text of an optional artifact type, as `Debug` writes it.
pub open spec fn optional_debug(t: Option<Seq<char>>) -> Seq<char> {
    match t {
        Some(s) => "Some("@ + debug_text(s) + ")"@,
        None => "None"@,
    }
}

/// What an OCI image resolves to: the manifest at `manifest` must be a guest's, and its layers
/// must be known, sound and not repeated, a kernel among them.
pub open spec fn oci_resolved(
    dir: Seq<char>,
    manifest: Seq<char>,
    m: Manifest,
    facts: Seq<BlobFact>,
    digest: Seq<char>,
) -> core::result::Result<ImageView, VmmErrorView> {
    if text_view(m.artifact_type) != Some(ARTIFACT_TYPE@) {
        Err(
            image_error(
                manifest,
                "artifactType "@ + optional_debug(text_view(m.artifact_type)) + " is not "@
                    + ARTIFACT_TYPE@,
            ),
        )
    } else {
        match sorted(dir, manifest, m.layers@, facts, m.layers@.len()) {
            Sorted::Refused(why) => Err(why),
            Sorted::Good(st) => match st.kernel {
                None => Err(image_error(manifest, "no kernel layer"@)),
                Some(kernel) => Ok(
                    ImageView {
                        kernel,
                        initramfs: st.initramfs,
                        rootfs: st.rootfs,
                        digest: Some(digest),
                    },
                ),
            },
        }
    }
}

/// Resolve an OCI layout at `dir` from its manifest, which lies at `manifest_path` and has the
/// digest `digest`, and from what was found where each layer's blob should be.
pub fn resolve_oci(
    dir: &str,
    manifest_path: &str,
    m: &Manifest,
    facts: &Vec<BlobFact>,
    digest: &str,
) -> (r: Result<GuestImage>)
    requires
        facts@.len() == m.layers@.len(),
        forall|i: int| 0 <= i < facts@.len() ==> hashed_if_small(#[trigger] facts@[i]),
    ensures
        match oci_resolved(dir@, manifest_path@, *m, facts@, digest@) {
            Ok(v) => r matches Ok(img) && img@ == v,
            Err(why) => r matches Err(e) && e@ == why,
        },
{
    let right = match &m.artifact_type {
        Some(t) => same(t, ARTIFACT_TYPE),
        None => false,
    };
    if !right {
        let shown = match &m.artifact_type {
            Some(t) => {
                let q = quoted(t);
                cat3("Some(", &q, ")")
            },
            None => "None".to_owned(),
        };
        return Err(
            err(manifest_path, cat4("artifactType ", &shown, " is not ", ARTIFACT_TYPE)),
        );
    }
    proof {
        reveal_strlit("application/vnd.moruna.guest.kernel.v1");
        reveal_strlit("application/vnd.moruna.guest.initramfs.v1+gzip");
        reveal_strlit("application/vnd.moruna.guest.rootfs.v1.erofs");
    }
    let mut kernel: Option<String> = None;
    let mut initramfs: Option<String> = None;
    let mut rootfs: Option<String> = None;
    let mut i: usize = 0;
    while i < m.layers.len()
        invariant
            i <= m.layers@.len() == facts@.len(),
            forall|i: int| 0 <= i < facts@.len() ==> hashed_if_small(#[trigger] facts@[i]),
            text_view(m.artifact_type) == Some(ARTIFACT_TYPE@),
            sorted(dir@, manifest_path@, m.layers@, facts@, i as nat) == Sorted::Good(
                LayersView {
                    kernel: text_view(kernel),
                    initramfs: text_view(initramfs),
                    rootfs: text_view(rootfs),
                },
            ),
        decreases m.layers@.len() - i,
    {
        let layer = &m.layers[i];
        let ghost next = sorted(dir@, manifest_path@, m.layers@, facts@, (i + 1) as nat);
        proof {
            if next is Refused {
                lemma_refused_stays(
                    dir@,
                    manifest_path@,
                    m.layers@,
                    facts@,
                    (i + 1) as nat,
                    m.layers@.len(),
                );
            }
        }
        let is_kernel = same(&layer.media_type, MEDIA_KERNEL);
        let is_initramfs = same(&layer.media_type, MEDIA_INITRAMFS);
        let is_rootfs = same(&layer.media_type, MEDIA_ROOTFS);
        if !is_kernel && !is_initramfs && !is_rootfs {
            return Err(err(manifest_path, cat2("unknown layer type ", &layer.media_type)));
        }
        let path = verify_blob(dir, layer, &facts[i])?;
        let again = if is_kernel {
            kernel.is_some()
        } else if is_initramfs {
            initramfs.is_some()
        } else {
            rootfs.is_some()
        };
        if again {
            return Err(err(manifest_path, cat2("two layers of type ", &layer.media_type)));
        }
        if is_kernel {
            kernel = Some(path);
        } else if is_initramfs {
            initramfs = Some(path);
        } else {
            rootfs = Some(path);
        }
        i += 1;
    }
    match kernel {
        Some(k) => Ok(
            GuestImage { kernel: k, initramfs, rootfs, digest: Some(digest.to_owned()) },
        ),
        None => Err(err(manifest_path, "no kernel layer".to_owned())),
    }
}

} // verus!
