//! The static audit of embedded models.
//!
//! Everything here is decided from the container alone: its framing, the
//! triangle counts that its accessors give, its materials and images, the size
//! of each image from its header, that it refers to nothing outside, and an
//! estimate of what it takes once decoded. A model that needs an extension is
//! refused.

use vstd::prelude::*;
use crate::text::{decimal, decimal_text, hexadecimal, hex_word, same_text};
use crate::tree::{json_document, read_json, Tree, TreeView};

verus! {

/// Upper bound, in bytes, on one embedded model.
pub const OBJECT_ASSET_BUDGET_BYTES: u64 = 2_097_152;

/// Upper bound, in bytes, on all embedded models.
pub const OBJECT_PACKAGE_BUDGET_BYTES: u64 = 4_194_304;

/// Upper bound on a model's triangles.
pub const GLB_MAX_TRIANGLES: u64 = 5000;

/// Upper bound on a model's materials.
pub const GLB_MAX_MATERIALS: u64 = 8;

/// Upper bound on a model's images.
pub const GLB_MAX_IMAGES: u64 = 4;

/// Upper bound on the sides of an image.
pub const GLB_MAX_TEXTURE_DIM: u32 = 2048;

/// Upper bound on the estimate of what a model takes once decoded.
pub const GLB_MAX_DECODED_BYTES: u64 = 20_971_520;

/// The kind of a JSON chunk.
pub const JSON_CHUNK: u32 = 0x4e4f_534a;

/// The kind of a binary chunk.
pub const BIN_CHUNK: u32 = 0x004e_4942;

/// What the audit found in a model.
#[derive(Debug)]
pub struct GlbAudit {
    /// Triangles, over all primitives.
    pub triangles: u64,
    /// Materials.
    pub materials: u64,
    /// The width and height of each image.
    pub images: Vec<(u32, u32)>,
    /// The bytes of the binary chunk.
    pub bin_bytes: u64,
    /// The bytes of the binary chunk and of the decoded images.
    pub decoded_estimate_bytes: u64,
}

/// What the audit found, with counts of any size.
pub struct AuditView {
    /// Triangles, over all primitives.
    pub triangles: nat,
    /// Materials.
    pub materials: nat,
    /// The width and height of each image.
    pub images: Seq<(u32, u32)>,
    /// The bytes of the binary chunk.
    pub bin_bytes: nat,
    /// The bytes of the binary chunk and of the decoded images.
    pub decoded_estimate_bytes: nat,
}

impl View for GlbAudit {
    type V = AuditView;

    open spec fn view(&self) -> AuditView {
        AuditView {
            triangles: self.triangles as nat,
            materials: self.materials as nat,
            images: self.images@,
            bin_bytes: self.bin_bytes as nat,
            decoded_estimate_bytes: self.decoded_estimate_bytes as nat,
        }
    }
}

/// What became of an audit.
pub open spec fn audit_result(result: Result<GlbAudit, String>) -> Result<AuditView, Seq<char>> {
    match result {
        Ok(audit) => Ok(audit@),
        Err(message) => Err(message@),
    }
}

/// Four bytes as a number, the lowest first.
pub open spec fn le32(bytes: Seq<u8>, at: int) -> nat {
    (bytes[at] + 0x100 * bytes[at + 1] + 0x1_0000 * bytes[at + 2] + 0x100_0000
        * bytes[at + 3]) as nat
}

/// Four bytes as a number, the highest first.
pub open spec fn be32(bytes: Seq<u8>, at: int) -> nat {
    (bytes[at + 3] + 0x100 * bytes[at + 2] + 0x1_0000 * bytes[at + 1] + 0x100_0000
        * bytes[at]) as nat
}

/// The sentence for a file that ends early.
pub open spec fn truncated(at: nat) -> Seq<char> {
    "truncated at byte "@ + decimal(at)
}

/// Reads four bytes, the lowest first.
pub fn read_u32_le(bytes: &[u8], offset: usize) -> (read: Result<u32, String>)
    ensures
        match read {
            Ok(value) => offset + 4 <= bytes@.len() && value == le32(bytes@, offset as int),
            Err(message) => offset + 4 > bytes@.len() && message@ == truncated(offset as nat),
        },
{
    if offset > bytes.len() || bytes.len() - offset < 4 {
        let mut message = "truncated at byte ".to_owned();
        message.append(&decimal_text(offset as u64));
        return Err(message);
    }
    Ok(
        bytes[offset] as u32 + 0x100 * (bytes[offset + 1] as u32) + 0x1_0000 * (bytes[offset
            + 2] as u32) + 0x100_0000 * (bytes[offset + 3] as u32),
    )
}

fn read_u32_be(bytes: &[u8], offset: usize) -> (value: u32)
    requires
        offset + 4 <= bytes.len(),
    ensures
        value == be32(bytes@, offset as int),
{
    bytes[offset + 3] as u32 + 0x100 * (bytes[offset + 2] as u32) + 0x1_0000 * (bytes[offset
        + 1] as u32) + 0x100_0000 * (bytes[offset] as u32)
}

/// The two chunks of a container.
pub struct ChunksView {
    /// The JSON chunk.
    pub json: Seq<u8>,
    /// The binary chunk; empty where there is none.
    pub bin: Seq<u8>,
}

/// The next position at or behind one that is a multiple of four.
pub open spec fn aligned(end: int) -> int {
    end + (4 - end % 4) % 4
}

/// Walks the chunks of a container from a position on: JSON first, then
/// perhaps binary, each at most once, and nothing else.
pub open spec fn walked(
    bytes: Seq<u8>,
    offset: int,
    json: Option<Seq<u8>>,
    bin: Option<Seq<u8>>,
) -> Result<ChunksView, Seq<char>>
    decreases
            if offset < bytes.len() {
                bytes.len() - offset
            } else {
                0
            },
{
    let length = le32(bytes, offset);
    let kind = le32(bytes, offset + 4);
    let start = offset + 8;
    let end = start + length;
    if offset < 0 || offset >= bytes.len() {
        match json {
            Some(json) => Ok(
                ChunksView {
                    json,
                    bin: match bin {
                        Some(bin) => bin,
                        None => Seq::empty(),
                    },
                },
            ),
            None => Err("no JSON chunk"@),
        }
    } else if offset + 4 > bytes.len() {
        Err(truncated(offset as nat))
    } else if offset + 8 > bytes.len() {
        Err(truncated((offset + 4) as nat))
    } else if end > bytes.len() {
        Err("chunk at byte "@ + decimal(offset as nat) + " overruns the file"@)
    } else if kind == JSON_CHUNK {
        if json is Some {
            Err("more than one JSON chunk"@)
        } else if bin is Some {
            Err("JSON chunk appears after the BIN chunk"@)
        } else {
            walked(bytes, aligned(end), Some(bytes.subrange(start, end)), bin)
        }
    } else if kind == BIN_CHUNK {
        if bin is Some {
            Err("more than one BIN chunk"@)
        } else {
            walked(bytes, aligned(end), json, Some(bytes.subrange(start, end)))
        }
    } else {
        Err("unknown chunk type "@ + ("0x"@ + hexadecimal(kind, 8)))
    }
}

/// The container's first four bytes.
pub open spec fn magic() -> Seq<u8> {
    seq![0x67u8, 0x6c, 0x54, 0x46]
}

/// The chunks of a container, or what is wrong with it.
pub open spec fn framed(bytes: Seq<u8>) -> Result<ChunksView, Seq<char>> {
    if bytes.len() < 12 {
        Err("file is shorter than the 12-byte GLB header"@)
    } else if bytes.take(4) != magic() {
        Err("magic is not 'glTF'"@)
    } else if le32(bytes, 4) != 2 {
        Err("container version is "@ + decimal(le32(bytes, 4)) + ", not 2"@)
    } else if le32(bytes, 8) != bytes.len() {
        Err(
            "declared length "@ + decimal(le32(bytes, 8)) + " does not match file length "@
                + decimal(bytes.len()),
        )
    } else {
        walked(bytes, 12, None, None)
    }
}

/// The two chunks of a container.
#[derive(Debug)]
struct Chunks {
    json: Vec<u8>,
    bin: Vec<u8>,
}

impl View for Chunks {
    type V = ChunksView;

    closed spec fn view(&self) -> ChunksView {
        ChunksView { json: self.json@, bin: self.bin@ }
    }
}

fn part(bytes: &[u8], start: usize, end: usize) -> (out: Vec<u8>)
    requires
        start <= end <= bytes@.len(),
    ensures
        out@ == bytes@.subrange(start as int, end as int),
{
    let mut out: Vec<u8> = Vec::new();
    let mut i: usize = start;
    while i < end
        invariant
            start <= i <= end <= bytes@.len(),
            out@ == bytes@.subrange(start as int, i as int),
        decreases end - i,
    {
        out.push(bytes[i]);
        assert(out@ =~= bytes@.subrange(start as int, i + 1));
        i += 1;
    }
    out
}

/// What is found of a container's chunks.
spec fn framing(found: Result<Chunks, String>) -> Result<ChunksView, Seq<char>> {
    match found {
        Ok(chunks) => Ok(chunks@),
        Err(message) => Err(message@),
    }
}

fn walk_chunks(bytes: &[u8]) -> (found: Result<Chunks, String>)
    requires
        12 <= bytes@.len(),
    ensures
        framing(found) == walked(bytes@, 12, None, None),
{
    let mut offset: usize = 12;
    let mut json: Option<Vec<u8>> = None;
    let mut bin: Option<Vec<u8>> = None;
    while offset < bytes.len()
        invariant
            12 <= offset,
            walked(
                bytes@,
                offset as int,
                crate::pty::bytes_view(json),
                crate::pty::bytes_view(bin),
            ) == walked(bytes@, 12, None, None),
        decreases bytes@.len() - offset,
    {
        let length: usize = match read_u32_le(bytes, offset) {
            Ok(length) => length as usize,
            Err(message) => {
                return Err(message);
            },
        };
        let kind: u32 = match read_u32_le(bytes, offset + 4) {
            Ok(kind) => kind,
            Err(message) => {
                return Err(message);
            },
        };
        let start: usize = offset + 8;
        if length > bytes.len() - start {
            let mut message = "chunk at byte ".to_owned();
            message.append(&decimal_text(offset as u64));
            message.append(" overruns the file");
            return Err(message);
        }
        let end: usize = start + length;
        if kind == JSON_CHUNK {
            if json.is_some() {
                return Err("more than one JSON chunk".to_owned());
            }
            if bin.is_some() {
                return Err("JSON chunk appears after the BIN chunk".to_owned());
            }
            json = Some(part(bytes, start, end));
        } else if kind == BIN_CHUNK {
            if bin.is_some() {
                return Err("more than one BIN chunk".to_owned());
            }
            bin = Some(part(bytes, start, end));
        } else {
            let mut message = "unknown chunk type ".to_owned();
            message.append(&hex_word(kind));
            return Err(message);
        }
        let pad: usize = (4 - end % 4) % 4;
        offset = if bytes.len() - end < pad {
            bytes.len()
        } else {
            end + pad
        };
        proof {
            let (j, b) = (crate::pty::bytes_view(json), crate::pty::bytes_view(bin));
            assert(walked(bytes@, aligned(end as int), j, b) == walked(
                bytes@,
                offset as int,
                j,
                b,
            ));
        }
    }
    match json {
        Some(json) => {
            let bin = match bin {
                Some(bin) => bin,
                None => Vec::new(),
            };
            assert(bin@ =~= match crate::pty::bytes_view(Some(bin)) {
                Some(bytes) => bytes,
                None => Seq::empty(),
            });
            Ok(Chunks { json, bin })
        },
        None => Err("no JSON chunk".to_owned()),
    }
}

fn frame_chunks(bytes: &[u8]) -> (found: Result<Chunks, String>)
    ensures
        framing(found) == framed(bytes@),
{
    if bytes.len() < 12 {
        return Err("file is shorter than the 12-byte GLB header".to_owned());
    }
    proof {
        assert(bytes@.take(4).len() == 4);
        if bytes@[0] == 0x67 && bytes@[1] == 0x6c && bytes@[2] == 0x54 && bytes@[3] == 0x46 {
            assert(bytes@.take(4) =~= magic());
        } else {
            assert(bytes@.take(4)[0] != magic()[0] || bytes@.take(4)[1] != magic()[1]
                || bytes@.take(4)[2] != magic()[2] || bytes@.take(4)[3] != magic()[3]);
        }
    }
    if !(bytes[0] == 0x67 && bytes[1] == 0x6c && bytes[2] == 0x54 && bytes[3] == 0x46) {
        return Err("magic is not 'glTF'".to_owned());
    }
    let version: u32 = match read_u32_le(bytes, 4) {
        Ok(version) => version,
        Err(message) => {
            return Err(message);
        },
    };
    if version != 2 {
        let mut message = "container version is ".to_owned();
        message.append(&decimal_text(version as u64));
        message.append(", not 2");
        return Err(message);
    }
    let declared: u32 = match read_u32_le(bytes, 8) {
        Ok(declared) => declared,
        Err(message) => {
            return Err(message);
        },
    };
    if declared as u64 != bytes.len() as u64 {
        let mut message = "declared length ".to_owned();
        message.append(&decimal_text(declared as u64));
        message.append(" does not match file length ");
        message.append(&decimal_text(bytes.len() as u64));
        return Err(message);
    }
    walk_chunks(bytes)
}

/// A member that is a list; none is an empty one.
pub open spec fn list_in(tree: TreeView, name: Seq<char>) -> Seq<TreeView> {
    match tree.member(name) {
        Some(found) => match found.items() {
            Some(items) => items,
            None => Seq::empty(),
        },
        None => Seq::empty(),
    }
}

/// A member that is a whole number.
pub open spec fn whole_in(tree: TreeView, name: Seq<char>) -> Option<u64> {
    match tree.member(name) {
        Some(found) => found.whole(),
        None => None,
    }
}

/// A member that is a text.
pub open spec fn text_in(tree: TreeView, name: Seq<char>) -> Option<Seq<char>> {
    match tree.member(name) {
        Some(TreeView::Text(text)) => Some(text),
        _ => None,
    }
}

/// The texts among items, from one on, each behind a comma if it is not the
/// first.
pub open spec fn listed(items: Seq<TreeView>, from: int, first: bool) -> Seq<char>
    decreases items.len() - from,
{
    if from < 0 || from >= items.len() {
        Seq::empty()
    } else {
        match items[from] {
            TreeView::Text(text) => (if first {
                text
            } else {
                ", "@ + text
            }) + listed(items, from + 1, false),
            _ => listed(items, from + 1, first),
        }
    }
}

/// The sentence for a model that needs extensions.
pub open spec fn needs_extensions(list: Seq<char>) -> Seq<char> {
    "extensionsRequired lists ["@ + list
        + "]; this build's bevy_gltf decodes no required extensions (Draco/meshopt/basisu are not compiled in) — re-export without compression extensions"@
}

/// The sentence for a part that refers to something outside.
pub open spec fn refers_outside(kind: Seq<char>, index: nat, uri: Seq<char>) -> Seq<char> {
    kind + "["@ + decimal(index) + "] references external uri '"@ + uri
        + "'; embedded scene assets must be self-contained"@
}

/// The first buffer that refers to something outside, from one on.
pub open spec fn outside_buffer(buffers: Seq<TreeView>, from: int) -> Option<Seq<char>>
    decreases buffers.len() - from,
{
    if from < 0 || from >= buffers.len() {
        None
    } else {
        match text_in(buffers[from], "uri"@) {
            Some(uri) => Some(refers_outside("buffers"@, from as nat, uri)),
            None => outside_buffer(buffers, from + 1),
        }
    }
}

/// What messages call a primitive.
pub open spec fn primitive_name(mesh: nat, primitive: nat) -> Seq<char> {
    "meshes["@ + decimal(mesh) + "].primitives["@ + decimal(primitive) + "]"@
}

/// The accessor that counts a primitive's vertices: that of its indices, or
/// else that of its positions.
pub open spec fn count_accessor(primitive: TreeView) -> Option<u64> {
    match whole_in(primitive, "indices"@) {
        Some(index) => Some(index),
        None => match primitive.member("attributes"@) {
            Some(attributes) => whole_in(attributes, "POSITION"@),
            None => None,
        },
    }
}

/// A primitive's triangles: a third of its vertices.
pub open spec fn primitive_triangles(
    accessors: Seq<TreeView>,
    primitive: TreeView,
    mesh: nat,
    index: nat,
) -> Result<nat, Seq<char>> {
    let mode = match whole_in(primitive, "mode"@) {
        Some(mode) => mode,
        None => 4,
    };
    if mode != 4 {
        Err(
            primitive_name(mesh, index) + " uses mode "@ + decimal(mode as nat)
                + "; only TRIANGLES (4) is budgeted"@,
        )
    } else {
        match count_accessor(primitive) {
            None => Err(
                primitive_name(mesh, index) + " has neither indices nor a POSITION attribute"@,
            ),
            Some(accessor) => {
                let count = if accessor < accessors.len() {
                    whole_in(accessors[accessor as int], "count"@)
                } else {
                    None
                };
                match count {
                    Some(count) => Ok((count / 3) as nat),
                    None => Err(
                        "accessor "@ + decimal(accessor as nat) + " is missing or has no count"@,
                    ),
                }
            },
        }
    }
}

/// A count with more behind it, which may turn out to be wrong.
pub open spec fn counted(count: nat, rest: Result<nat, Seq<char>>) -> Result<nat, Seq<char>> {
    match rest {
        Ok(more) => Ok(count + more),
        Err(message) => Err(message),
    }
}

/// The triangles of a mesh's primitives, from one on.
pub open spec fn mesh_triangles(
    accessors: Seq<TreeView>,
    primitives: Seq<TreeView>,
    mesh: nat,
    from: int,
) -> Result<nat, Seq<char>>
    decreases primitives.len() - from,
{
    if from < 0 || from >= primitives.len() {
        Ok(0)
    } else {
        match primitive_triangles(accessors, primitives[from], mesh, from as nat) {
            Ok(count) => counted(count, mesh_triangles(accessors, primitives, mesh, from + 1)),
            Err(message) => Err(message),
        }
    }
}

/// The triangles of meshes, from one on.
pub open spec fn model_triangles(
    accessors: Seq<TreeView>,
    meshes: Seq<TreeView>,
    from: int,
) -> Result<nat, Seq<char>>
    decreases meshes.len() - from,
{
    if from < 0 || from >= meshes.len() {
        Ok(0)
    } else {
        match mesh_triangles(accessors, list_in(meshes[from], "primitives"@), from as nat, 0) {
            Ok(count) => counted(count, model_triangles(accessors, meshes, from + 1)),
            Err(message) => Err(message),
        }
    }
}

/// What messages call an image.
pub open spec fn image_name(index: nat) -> Seq<char> {
    "images["@ + decimal(index) + "]"@
}

/// The first eight bytes of an image.
pub open spec fn png_signature() -> Seq<u8> {
    seq![0x89u8, 0x50, 0x4e, 0x47, 0x0d, 0x0a, 0x1a, 0x0a]
}

/// An image's width and height, from its header.
pub open spec fn image_size(
    views: Seq<TreeView>,
    image: TreeView,
    bin: Seq<u8>,
    index: nat,
) -> Result<(u32, u32), Seq<char>> {
    let mime = match text_in(image, "mimeType"@) {
        Some(mime) => mime,
        None => ""@,
    };
    if let Some(uri) = text_in(image, "uri"@) {
        Err(refers_outside("images"@, index, uri))
    } else if mime != "image/png"@ {
        Err(
            image_name(index) + " mimeType is '"@ + mime
                + "'; only image/png decodes (Cargo.toml compiles only the png image format)"@,
        )
    } else {
        match whole_in(image, "bufferView"@) {
            None => Err(image_name(index) + " has no bufferView"@),
            Some(at) => if at >= views.len() {
                Err(image_name(index) + " bufferView "@ + decimal(at as nat) + " is missing"@)
            } else {
                let view = views[at as int];
                let offset = match whole_in(view, "byteOffset"@) {
                    Some(offset) => offset,
                    None => 0,
                };
                match whole_in(view, "byteLength"@) {
                    None => Err("bufferViews["@ + decimal(at as nat) + "] has no byteLength"@),
                    Some(length) => if offset + length > bin.len() {
                        Err(image_name(index) + " bufferView overruns the BIN chunk"@)
                    } else {
                        let png = bin.subrange(offset as int, offset + length);
                        if length < 24 || png.take(8) != png_signature() {
                            Err(image_name(index) + " bytes are not a PNG"@)
                        } else {
                            Ok((be32(png, 16) as u32, be32(png, 20) as u32))
                        }
                    },
                }
            },
        }
    }
}

/// The sizes of images, from one on.
pub open spec fn image_sizes(
    views: Seq<TreeView>,
    images: Seq<TreeView>,
    bin: Seq<u8>,
    from: int,
) -> Result<Seq<(u32, u32)>, Seq<char>>
    decreases images.len() - from,
{
    if from < 0 || from >= images.len() {
        Ok(Seq::empty())
    } else {
        match image_size(views, images[from], bin, from as nat) {
            Ok(size) => match image_sizes(views, images, bin, from + 1) {
                Ok(rest) => Ok(seq![size] + rest),
                Err(message) => Err(message),
            },
            Err(message) => Err(message),
        }
    }
}

/// The bytes that decoded images take, four for each pixel.
pub open spec fn decoded_bytes(images: Seq<(u32, u32)>) -> nat
    decreases images.len(),
{
    if images.len() == 0 {
        0
    } else {
        decoded_bytes(images.drop_last()) + (images.last().0 * images.last().1 * 4) as nat
    }
}

/// What the audit finds in a model's document and binary chunk, or why it is
/// refused.
pub open spec fn audited(root: TreeView, bin: Seq<u8>) -> Result<AuditView, Seq<char>> {
    let required = list_in(root, "extensionsRequired"@);
    if required.len() > 0 {
        Err(needs_extensions(listed(required, 0, true)))
    } else if let Some(message) = outside_buffer(list_in(root, "buffers"@), 0) {
        Err(message)
    } else {
        match model_triangles(list_in(root, "accessors"@), list_in(root, "meshes"@), 0) {
            Err(message) => Err(message),
            Ok(triangles) => match image_sizes(
                list_in(root, "bufferViews"@),
                list_in(root, "images"@),
                bin,
                0,
            ) {
                Err(message) => Err(message),
                Ok(images) => Ok(
                    AuditView {
                        triangles,
                        materials: list_in(root, "materials"@).len(),
                        images,
                        bin_bytes: bin.len(),
                        decoded_estimate_bytes: bin.len() + decoded_bytes(images),
                    },
                ),
            },
        }
    }
}

/// Whether the counts of an audit fit.
pub open spec fn countable(result: Result<AuditView, Seq<char>>) -> bool {
    result matches Ok(audit) ==> audit.triangles <= u64::MAX && audit.decoded_estimate_bytes
        <= u64::MAX
}

fn items_in<'a>(tree: &'a Tree, name: &str) -> (found: Option<&'a Vec<Tree>>)
    ensures
        match found {
            Some(items) => {
                &&& list_in(tree@, name@).len() == items@.len()
                &&& forall|i: int|
                    0 <= i < items@.len() ==> #[trigger] list_in(tree@, name@)[i] == items@[i]@
            },
            None => list_in(tree@, name@) == Seq::<TreeView>::empty(),
        },
{
    match tree.member(name) {
        Some(found) => found.items(),
        None => None,
    }
}

fn number_in(tree: &Tree, name: &str) -> (found: Option<u64>)
    ensures
        found == whole_in(tree@, name@),
{
    match tree.member(name) {
        Some(found) => found.whole(),
        None => None,
    }
}

fn string_in<'a>(tree: &'a Tree, name: &str) -> (found: Option<&'a String>)
    ensures
        match found {
            Some(text) => text_in(tree@, name@) == Some(text@),
            None => text_in(tree@, name@) is None,
        },
{
    match tree.member(name) {
        Some(found) => match found {
            Tree::Text(text) => Some(text),
            _ => None,
        },
        None => None,
    }
}

fn outside_message(kind: &str, index: usize, uri: &str) -> (message: String)
    ensures
        message@ == refers_outside(kind@, index as nat, uri@),
{
    let mut message = kind.to_owned();
    message.append("[");
    message.append(&decimal_text(index as u64));
    message.append("] references external uri '");
    message.append(uri);
    message.append("'; embedded scene assets must be self-contained");
    message
}

fn primitive_label(mesh: usize, primitive: usize) -> (label: String)
    ensures
        label@ == primitive_name(mesh as nat, primitive as nat),
{
    let mut label = "meshes[".to_owned();
    label.append(&decimal_text(mesh as u64));
    label.append("].primitives[");
    label.append(&decimal_text(primitive as u64));
    label.append("]");
    label
}

fn image_label(index: usize) -> (label: String)
    ensures
        label@ == image_name(index as nat),
{
    let mut label = "images[".to_owned();
    label.append(&decimal_text(index as u64));
    label.append("]");
    label
}

fn item_at<'a>(items: Option<&'a Vec<Tree>>, at: u64) -> (found: Option<&'a Tree>)
    ensures
        match items {
            Some(items) => match found {
                Some(tree) => at < items@.len() && *tree == items@[at as int],
                None => at >= items@.len(),
            },
            None => found is None,
        },
{
    match items {
        Some(items) => if at < items.len() as u64 {
            Some(&items[at as usize])
        } else {
            None
        },
        None => None,
    }
}

fn count_primitive(
    accessors: Option<&Vec<Tree>>,
    Ghost(all): Ghost<Seq<TreeView>>,
    primitive: &Tree,
    mesh: usize,
    index: usize,
) -> (count: Result<u64, String>)
    requires
        match accessors {
            Some(items) => {
                &&& all.len() == items@.len()
                &&& forall|i: int| 0 <= i < items@.len() ==> #[trigger] all[i] == items@[i]@
            },
            None => all == Seq::<TreeView>::empty(),
        },
    ensures
        match count {
            Ok(count) => primitive_triangles(all, primitive@, mesh as nat, index as nat) == Ok::<
                nat,
                Seq<char>,
            >(count as nat),
            Err(message) => primitive_triangles(all, primitive@, mesh as nat, index as nat)
                == Err::<nat, Seq<char>>(message@),
        },
{
    let mode: u64 = match number_in(primitive, "mode") {
        Some(mode) => mode,
        None => 4,
    };
    if mode != 4 {
        let mut message = primitive_label(mesh, index);
        message.append(" uses mode ");
        message.append(&decimal_text(mode));
        message.append("; only TRIANGLES (4) is budgeted");
        return Err(message);
    }
    let accessor: Option<u64> = match number_in(primitive, "indices") {
        Some(index) => Some(index),
        None => match primitive.member("attributes") {
            Some(attributes) => number_in(attributes, "POSITION"),
            None => None,
        },
    };
    let accessor: u64 = match accessor {
        Some(accessor) => accessor,
        None => {
            let mut message = primitive_label(mesh, index);
            message.append(" has neither indices nor a POSITION attribute");
            return Err(message);
        },
    };
    let count: Option<u64> = match item_at(accessors, accessor) {
        Some(found) => number_in(found, "count"),
        None => None,
    };
    match count {
        Some(count) => Ok(count / 3),
        None => {
            let mut message = "accessor ".to_owned();
            message.append(&decimal_text(accessor));
            message.append(" is missing or has no count");
            Err(message)
        },
    }
}

/// Whether a count is a sum, or tells that the sum does not fit.
spec fn counts(count: Option<u64>, sum: nat) -> bool {
    match count {
        Some(count) => count == sum,
        None => sum > u64::MAX,
    }
}

/// Whether a count, or a message, is what a sum came to.
spec fn counted_as(found: Result<Option<u64>, String>, result: Result<nat, Seq<char>>) -> bool {
    match found {
        Ok(count) => result is Ok && counts(count, result->Ok_0),
        Err(message) => result == Err::<nat, Seq<char>>(message@),
    }
}

fn sum_counts(total: Option<u64>, count: Option<u64>, Ghost(a): Ghost<nat>, Ghost(b): Ghost<nat>) -> (sum:
    Option<u64>)
    requires
        counts(total, a),
        counts(count, b),
    ensures
        counts(sum, a + b),
{
    match (total, count) {
        (Some(total), Some(count)) => total.checked_add(count),
        _ => None,
    }
}

fn count_mesh(
    accessors: Option<&Vec<Tree>>,
    Ghost(all): Ghost<Seq<TreeView>>,
    mesh: &Tree,
    index: usize,
) -> (found: Result<Option<u64>, String>)
    requires
        match accessors {
            Some(items) => {
                &&& all.len() == items@.len()
                &&& forall|i: int| 0 <= i < items@.len() ==> #[trigger] all[i] == items@[i]@
            },
            None => all == Seq::<TreeView>::empty(),
        },
    ensures
        counted_as(
            found,
            mesh_triangles(all, list_in(mesh@, "primitives"@), index as nat, 0),
        ),
{
    let ghost rows = list_in(mesh@, "primitives"@);
    let primitives: &Vec<Tree> = match items_in(mesh, "primitives") {
        Some(primitives) => primitives,
        None => {
            return Ok(Some(0));
        },
    };
    let mut total: Option<u64> = Some(0);
    let ghost mut sum: nat = 0;
    let mut i: usize = 0;
    while i < primitives.len()
        invariant
            match accessors {
                Some(items) => {
                    &&& all.len() == items@.len()
                    &&& forall|i: int| 0 <= i < items@.len() ==> #[trigger] all[i] == items@[i]@
                },
                None => all == Seq::<TreeView>::empty(),
            },
            i <= primitives@.len(),
            rows == list_in(mesh@, "primitives"@),
            rows.len() == primitives@.len(),
            forall|i: int| 0 <= i < primitives@.len() ==> #[trigger] rows[i] == primitives@[i]@,
            counts(total, sum),
            mesh_triangles(all, rows, index as nat, 0) == counted(
                sum,
                mesh_triangles(all, rows, index as nat, i as int),
            ),
        decreases primitives.len() - i,
    {
        assert(rows[i as int] == primitives@[i as int]@);
        match count_primitive(accessors, Ghost(all), &primitives[i], index, i) {
            Ok(count) => {
                total = sum_counts(total, Some(count), Ghost(sum), Ghost(count as nat));
                proof {
                    sum = sum + count as nat;
                }
            },
            Err(message) => {
                return Err(message);
            },
        }
        i += 1;
    }
    Ok(total)
}

fn count_model(root: &Tree) -> (found: Result<Option<u64>, String>)
    ensures
        counted_as(
            found,
            model_triangles(list_in(root@, "accessors"@), list_in(root@, "meshes"@), 0),
        ),
{
    let ghost all = list_in(root@, "accessors"@);
    let ghost rows = list_in(root@, "meshes"@);
    let accessors = items_in(root, "accessors");
    let meshes: &Vec<Tree> = match items_in(root, "meshes") {
        Some(meshes) => meshes,
        None => {
            return Ok(Some(0));
        },
    };
    let mut total: Option<u64> = Some(0);
    let ghost mut sum: nat = 0;
    let mut i: usize = 0;
    while i < meshes.len()
        invariant
            match accessors {
                Some(items) => {
                    &&& all.len() == items@.len()
                    &&& forall|i: int| 0 <= i < items@.len() ==> #[trigger] all[i] == items@[i]@
                },
                None => all == Seq::<TreeView>::empty(),
            },
            i <= meshes@.len(),
            all == list_in(root@, "accessors"@),
            rows == list_in(root@, "meshes"@),
            rows.len() == meshes@.len(),
            forall|i: int| 0 <= i < meshes@.len() ==> #[trigger] rows[i] == meshes@[i]@,
            counts(total, sum),
            model_triangles(all, rows, 0) == counted(sum, model_triangles(all, rows, i as int)),
        decreases meshes.len() - i,
    {
        assert(rows[i as int] == meshes@[i as int]@);
        let ghost in_mesh = mesh_triangles(
            all,
            list_in(meshes@[i as int]@, "primitives"@),
            i as nat,
            0,
        );
        match count_mesh(accessors, Ghost(all), &meshes[i], i) {
            Ok(count) => {
                total = sum_counts(total, count, Ghost(sum), Ghost(in_mesh->Ok_0));
                proof {
                    sum = sum + in_mesh->Ok_0;
                }
            },
            Err(message) => {
                return Err(message);
            },
        }
        i += 1;
    }
    Ok(total)
}

fn list_extensions(required: &Vec<Tree>, Ghost(rows): Ghost<Seq<TreeView>>) -> (list: String)
    requires
        rows.len() == required@.len(),
        forall|i: int| 0 <= i < required@.len() ==> #[trigger] rows[i] == required@[i]@,
    ensures
        list@ == listed(rows, 0, true),
{
    let mut list = String::new();
    let mut first: bool = true;
    let mut i: usize = 0;
    assert(list@ + listed(rows, 0, true) =~= listed(rows, 0, true));
    while i < required.len()
        invariant
            i <= required@.len(),
            rows.len() == required@.len(),
            forall|i: int| 0 <= i < required@.len() ==> #[trigger] rows[i] == required@[i]@,
            list@ + listed(rows, i as int, first) == listed(rows, 0, true),
        decreases required.len() - i,
    {
        let ghost before = list@;
        assert(rows[i as int] == required@[i as int]@);
        if let Tree::Text(text) = &required[i] {
            if !first {
                list.append(", ");
            }
            list.append(text);
            proof {
                let own = if first {
                    text@
                } else {
                    ", "@ + text@
                };
                let rest = listed(rows, i + 1, false);
                assert(list@ =~= before + own);
                assert((before + own) + rest =~= before + (own + rest));
            }
            first = false;
        }
        i += 1;
    }
    assert(list@ + Seq::<char>::empty() =~= list@);
    list
}

fn check_buffers(root: &Tree) -> (found: Option<String>)
    ensures
        match found {
            Some(message) => outside_buffer(list_in(root@, "buffers"@), 0) == Some(message@),
            None => outside_buffer(list_in(root@, "buffers"@), 0) is None,
        },
{
    let ghost rows = list_in(root@, "buffers"@);
    let buffers: &Vec<Tree> = match items_in(root, "buffers") {
        Some(buffers) => buffers,
        None => {
            return None;
        },
    };
    let mut i: usize = 0;
    while i < buffers.len()
        invariant
            i <= buffers@.len(),
            rows == list_in(root@, "buffers"@),
            rows.len() == buffers@.len(),
            forall|i: int| 0 <= i < buffers@.len() ==> #[trigger] rows[i] == buffers@[i]@,
            outside_buffer(rows, 0) == outside_buffer(rows, i as int),
        decreases buffers.len() - i,
    {
        assert(rows[i as int] == buffers@[i as int]@);
        if let Some(uri) = string_in(&buffers[i], "uri") {
            return Some(outside_message("buffers", i, uri));
        }
        i += 1;
    }
    None
}

fn measure_image(
    views: Option<&Vec<Tree>>,
    Ghost(all): Ghost<Seq<TreeView>>,
    image: &Tree,
    bin: &Vec<u8>,
    index: usize,
) -> (size: Result<(u32, u32), String>)
    requires
        match views {
            Some(items) => {
                &&& all.len() == items@.len()
                &&& forall|i: int| 0 <= i < items@.len() ==> #[trigger] all[i] == items@[i]@
            },
            None => all == Seq::<TreeView>::empty(),
        },
    ensures
        match size {
            Ok(size) => image_size(all, image@, bin@, index as nat) == Ok::<(u32, u32), Seq<char>>(
                size,
            ),
            Err(message) => image_size(all, image@, bin@, index as nat) == Err::<
                (u32, u32),
                Seq<char>,
            >(message@),
        },
{
    if let Some(uri) = string_in(image, "uri") {
        return Err(outside_message("images", index, uri));
    }
    let mime: &str = match string_in(image, "mimeType") {
        Some(mime) => mime.as_str(),
        None => "",
    };
    if !same_text(mime, "image/png") {
        let mut message = image_label(index);
        message.append(" mimeType is '");
        message.append(mime);
        message.append(
            "'; only image/png decodes (Cargo.toml compiles only the png image format)",
        );
        return Err(message);
    }
    let at: u64 = match number_in(image, "bufferView") {
        Some(at) => at,
        None => {
            let mut message = image_label(index);
            message.append(" has no bufferView");
            return Err(message);
        },
    };
    let view: &Tree = match item_at(views, at) {
        Some(view) => view,
        None => {
            let mut message = image_label(index);
            message.append(" bufferView ");
            message.append(&decimal_text(at));
            message.append(" is missing");
            return Err(message);
        },
    };
    let offset: u64 = match number_in(view, "byteOffset") {
        Some(offset) => offset,
        None => 0,
    };
    let length: u64 = match number_in(view, "byteLength") {
        Some(length) => length,
        None => {
            let mut message = "bufferViews[".to_owned();
            message.append(&decimal_text(at));
            message.append("] has no byteLength");
            return Err(message);
        },
    };
    let count: u64 = bin.len() as u64;
    if offset > count || length > count - offset {
        let mut message = image_label(index);
        message.append(" bufferView overruns the BIN chunk");
        return Err(message);
    }
    let start: usize = offset as usize;
    let end: usize = start + length as usize;
    let png = part(bin.as_slice(), start, end);
    let ghost view_bytes = bin@.subrange(offset as int, offset + length);
    assert(png@ == view_bytes);
    if png.len() < 24 || !is_png(&png) {
        let mut message = image_label(index);
        message.append(" bytes are not a PNG");
        return Err(message);
    }
    Ok((read_u32_be(png.as_slice(), 16), read_u32_be(png.as_slice(), 20)))
}

fn is_png(bytes: &Vec<u8>) -> (png: bool)
    requires
        8 <= bytes@.len(),
    ensures
        png == (bytes@.take(8) == png_signature()),
{
    let signature: Vec<u8> = vec![0x89, 0x50, 0x4e, 0x47, 0x0d, 0x0a, 0x1a, 0x0a];
    assert(signature@ =~= png_signature());
    let mut i: usize = 0;
    while i < 8
        invariant
            i <= 8 <= bytes@.len(),
            signature@ == png_signature(),
            signature@.len() == 8,
            forall|j: int| 0 <= j < i ==> bytes@[j] == signature@[j],
        decreases 8 - i,
    {
        if bytes[i] != signature[i] {
            assert(bytes@.take(8)[i as int] != png_signature()[i as int]);
            return false;
        }
        i += 1;
    }
    assert(bytes@.take(8) =~= png_signature());
    true
}

fn measure_images(root: &Tree, bin: &Vec<u8>) -> (sizes: Result<Vec<(u32, u32)>, String>)
    ensures
        match sizes {
            Ok(sizes) => image_sizes(
                list_in(root@, "bufferViews"@),
                list_in(root@, "images"@),
                bin@,
                0,
            ) == Ok::<Seq<(u32, u32)>, Seq<char>>(sizes@),
            Err(message) => image_sizes(
                list_in(root@, "bufferViews"@),
                list_in(root@, "images"@),
                bin@,
                0,
            ) == Err::<Seq<(u32, u32)>, Seq<char>>(message@),
        },
{
    let ghost all = list_in(root@, "bufferViews"@);
    let ghost rows = list_in(root@, "images"@);
    let views = items_in(root, "bufferViews");
    let mut sizes: Vec<(u32, u32)> = Vec::new();
    let images: &Vec<Tree> = match items_in(root, "images") {
        Some(images) => images,
        None => {
            assert(sizes@ =~= Seq::empty());
            return Ok(sizes);
        },
    };
    let mut i: usize = 0;
    assert(with_sizes(sizes@, image_sizes(all, rows, bin@, 0)) == image_sizes(all, rows, bin@, 0))
        by {
        if let Ok(rest) = image_sizes(all, rows, bin@, 0) {
            assert(sizes@ + rest =~= rest);
        }
    }
    while i < images.len()
        invariant
            match views {
                Some(items) => {
                    &&& all.len() == items@.len()
                    &&& forall|i: int| 0 <= i < items@.len() ==> #[trigger] all[i] == items@[i]@
                },
                None => all == Seq::<TreeView>::empty(),
            },
            i <= images@.len(),
            all == list_in(root@, "bufferViews"@),
            rows == list_in(root@, "images"@),
            rows.len() == images@.len(),
            forall|i: int| 0 <= i < images@.len() ==> #[trigger] rows[i] == images@[i]@,
            with_sizes(sizes@, image_sizes(all, rows, bin@, i as int)) == image_sizes(
                all,
                rows,
                bin@,
                0,
            ),
        decreases images.len() - i,
    {
        let ghost before = sizes@;
        assert(rows[i as int] == images@[i as int]@);
        match measure_image(views, Ghost(all), &images[i], bin, i) {
            Ok(size) => {
                sizes.push(size);
                proof {
                    if let Ok(rest) = image_sizes(all, rows, bin@, i + 1) {
                        assert(before + (seq![size] + rest) =~= sizes@ + rest);
                    }
                }
            },
            Err(message) => {
                return Err(message);
            },
        }
        i += 1;
    }
    assert(sizes@ + Seq::<(u32, u32)>::empty() =~= sizes@);
    Ok(sizes)
}

/// Sizes with more behind them, which may turn out to be wrong.
spec fn with_sizes(
    sizes: Seq<(u32, u32)>,
    rest: Result<Seq<(u32, u32)>, Seq<char>>,
) -> Result<Seq<(u32, u32)>, Seq<char>> {
    match rest {
        Ok(more) => Ok(sizes + more),
        Err(message) => Err(message),
    }
}

fn estimate(bin_bytes: u64, images: &Vec<(u32, u32)>) -> (found: Option<u64>)
    ensures
        counts(found, bin_bytes as nat + decoded_bytes(images@)),
{
    let mut total: Option<u64> = Some(bin_bytes);
    let mut i: usize = 0;
    assert(images@.take(0) =~= Seq::empty());
    while i < images.len()
        invariant
            i <= images@.len(),
            counts(total, bin_bytes as nat + decoded_bytes(images@.take(i as int))),
        decreases images.len() - i,
    {
        let (width, height): (u32, u32) = images[i];
        proof {
            assert(images@.take(i + 1).drop_last() =~= images@.take(i as int));
            assert(images@.take(i + 1).last() == images@[i as int]);
            assert(0 <= width * height <= 0xffff_ffff * 0xffff_ffff) by (nonlinear_arith)
                requires
                    width <= 0xffff_ffff,
                    height <= 0xffff_ffff,
            ;
        }
        let area: u64 = width as u64 * height as u64;
        let bytes: Option<u64> = area.checked_mul(4);
        total = sum_counts(
            total,
            bytes,
            Ghost(bin_bytes as nat + decoded_bytes(images@.take(i as int))),
            Ghost((width * height * 4) as nat),
        );
        i += 1;
    }
    assert(images@.take(i as int) =~= images@);
    total
}

/// What an audit comes to: none where its counts do not fit.
spec fn outcome_of(
    outcome: Option<Result<GlbAudit, String>>,
    result: Result<AuditView, Seq<char>>,
) -> bool {
    match outcome {
        Some(found) => audit_result(found) == result,
        None => !countable(result),
    }
}

fn audit_tree(root: &Tree, bin: &Vec<u8>) -> (outcome: Option<Result<GlbAudit, String>>)
    ensures
        outcome_of(outcome, audited(root@, bin@)),
{
    if let Some(required) = items_in(root, "extensionsRequired") {
        if required.len() > 0 {
            let ghost rows = list_in(root@, "extensionsRequired"@);
            let mut message = "extensionsRequired lists [".to_owned();
            message.append(&list_extensions(required, Ghost(rows)));
            message.append(
                "]; this build's bevy_gltf decodes no required extensions (Draco/meshopt/basisu are not compiled in) — re-export without compression extensions",
            );
            return Some(Err(message));
        }
    }
    if let Some(message) = check_buffers(root) {
        return Some(Err(message));
    }
    let triangles: Option<u64> = match count_model(root) {
        Ok(triangles) => triangles,
        Err(message) => {
            return Some(Err(message));
        },
    };
    let materials: u64 = match items_in(root, "materials") {
        Some(materials) => materials.len() as u64,
        None => 0,
    };
    let images: Vec<(u32, u32)> = match measure_images(root, bin) {
        Ok(images) => images,
        Err(message) => {
            return Some(Err(message));
        },
    };
    let bin_bytes: u64 = bin.len() as u64;
    match (triangles, estimate(bin_bytes, &images)) {
        (Some(triangles), Some(decoded_estimate_bytes)) => Some(
            Ok(GlbAudit { triangles, materials, images, bin_bytes, decoded_estimate_bytes }),
        ),
        _ => None,
    }
}

/// Audits a model's document and binary chunk.
pub fn audit_document(root: &Tree, bin: &Vec<u8>) -> (result: Result<GlbAudit, String>)
    requires
        countable(audited(root@, bin@)),
    ensures
        audit_result(result) == audited(root@, bin@),
{
    match audit_tree(root, bin) {
        Some(result) => result,
        None => {
            assert(false);
            Err(String::new())
        },
    }
}

/// What the audit finds in a container, or why it is refused. What its JSON
/// chunk holds is what `serde_json` reads there.
pub open spec fn glb_audited(bytes: Seq<u8>) -> Result<AuditView, Seq<char>> {
    match framed(bytes) {
        Err(message) => Err(message),
        Ok(chunks) => match json_document(chunks.json) {
            Err(message) => Err("JSON chunk does not parse: "@ + message),
            Ok(root) => audited(root, chunks.bin),
        },
    }
}

/// Audits a container.
pub fn audit_glb(bytes: &[u8]) -> (result: Result<GlbAudit, String>)
    requires
        countable(glb_audited(bytes@)),
    ensures
        audit_result(result) == glb_audited(bytes@),
{
    match frame_chunks(bytes) {
        Err(message) => Err(message),
        Ok(chunks) => match read_json(chunks.json.as_slice()) {
            Err(error) => {
                let mut message = "JSON chunk does not parse: ".to_owned();
                message.append(&error);
                Err(message)
            },
            Ok(root) => audit_document(&root, &chunks.bin),
        },
    }
}

/// Audits a container; none where its counts do not fit.
pub fn checked_audit_glb(bytes: &[u8]) -> (outcome: Option<Result<GlbAudit, String>>)
    ensures
        outcome is None <==> !countable(glb_audited(bytes@)),
        outcome matches Some(result) ==> audit_result(result) == glb_audited(bytes@),
{
    let fits: bool = match frame_chunks(bytes) {
        Err(_) => true,
        Ok(chunks) => match read_json(chunks.json.as_slice()) {
            Err(_) => true,
            Ok(root) => match audit_tree(&root, &chunks.bin) {
                Some(_) => true,
                None => false,
            },
        },
    };
    if fits {
        Some(audit_glb(bytes))
    } else {
        None
    }
}

/// The first image that is too large, from one on.
pub open spec fn large_image(images: Seq<(u32, u32)>, from: int) -> Option<Seq<char>>
    decreases images.len() - from,
{
    if from < 0 || from >= images.len() {
        None
    } else if images[from].0 > GLB_MAX_TEXTURE_DIM || images[from].1 > GLB_MAX_TEXTURE_DIM {
        Some(
            image_name(from as nat) + " is "@ + decimal(images[from].0 as nat) + "x"@ + decimal(
                images[from].1 as nat,
            ) + ", over the 2048 per-side budget; scale the texture down and re-export"@,
        )
    } else {
        large_image(images, from + 1)
    }
}

/// Which budget a model is over, if any: triangles, materials, images, the
/// sides of an image, or the estimate, in this order. The sentence names what
/// was measured, the budget, and the remedy.
pub open spec fn over_budget(audit: AuditView) -> Option<Seq<char>> {
    if audit.triangles > GLB_MAX_TRIANGLES {
        Some(decimal(audit.triangles) + " triangles, over the 5000-triangle budget; simplify the meshes and re-export"@)
    } else if audit.materials > GLB_MAX_MATERIALS {
        Some(decimal(audit.materials) + " materials, over the 8-material budget; merge materials and re-export"@)
    } else if audit.images.len() > GLB_MAX_IMAGES {
        Some(decimal(audit.images.len()) + " embedded images, over the 4-image budget; merge or drop textures and re-export"@)
    } else if let Some(message) = large_image(audit.images, 0) {
        Some(message)
    } else if audit.decoded_estimate_bytes > GLB_MAX_DECODED_BYTES {
        Some(
            "decoded-runtime estimate is "@ + decimal(audit.decoded_estimate_bytes)
                + " bytes (BIN + RGBA8 textures), over the 20971520-byte budget; shrink the textures or the meshes and re-export"@,
        )
    } else {
        None
    }
}

/// Holds a model against the budgets.
pub fn enforce_glb_caps(audit: &GlbAudit) -> (checked: Result<(), String>)
    ensures
        match checked {
            Ok(_) => over_budget(audit@) is None,
            Err(message) => over_budget(audit@) == Some(message@),
        },
{
    if audit.triangles > GLB_MAX_TRIANGLES {
        let mut message = decimal_text(audit.triangles);
        message.append(" triangles, over the 5000-triangle budget; simplify the meshes and re-export");
        return Err(message);
    }
    if audit.materials > GLB_MAX_MATERIALS {
        let mut message = decimal_text(audit.materials);
        message.append(" materials, over the 8-material budget; merge materials and re-export");
        return Err(message);
    }
    if audit.images.len() as u64 > GLB_MAX_IMAGES {
        let mut message = decimal_text(audit.images.len() as u64);
        message.append(" embedded images, over the 4-image budget; merge or drop textures and re-export");
        return Err(message);
    }
    let mut i: usize = 0;
    while i < audit.images.len()
        invariant
            i <= audit.images@.len(),
            audit.triangles <= GLB_MAX_TRIANGLES,
            audit.materials <= GLB_MAX_MATERIALS,
            audit.images@.len() <= GLB_MAX_IMAGES,
            large_image(audit.images@, 0) == large_image(audit.images@, i as int),
        decreases audit.images.len() - i,
    {
        let (width, height): (u32, u32) = audit.images[i];
        if width > GLB_MAX_TEXTURE_DIM || height > GLB_MAX_TEXTURE_DIM {
            let mut message = image_label(i);
            message.append(" is ");
            message.append(&decimal_text(width as u64));
            message.append("x");
            message.append(&decimal_text(height as u64));
            message.append(", over the 2048 per-side budget; scale the texture down and re-export");
            return Err(message);
        }
        i += 1;
    }
    if audit.decoded_estimate_bytes > GLB_MAX_DECODED_BYTES {
        let mut message = "decoded-runtime estimate is ".to_owned();
        message.append(&decimal_text(audit.decoded_estimate_bytes));
        message.append(" bytes (BIN + RGBA8 textures), over the 20971520-byte budget; shrink the textures or the meshes and re-export");
        return Err(message);
    }
    Ok(())
}

/// A model within its budgets decodes within its bound: no image has more
/// pixels than the largest square, and there are few.
pub proof fn law_budgets_bound_the_images(audit: AuditView)
    requires
        over_budget(audit) is None,
    ensures
        audit.images.len() <= GLB_MAX_IMAGES,
        forall|i: int|
            0 <= i < audit.images.len() ==> (#[trigger] audit.images[i]).0 <= GLB_MAX_TEXTURE_DIM
                && audit.images[i].1 <= GLB_MAX_TEXTURE_DIM,
        audit.decoded_estimate_bytes <= GLB_MAX_DECODED_BYTES,
        audit.triangles <= GLB_MAX_TRIANGLES,
        audit.materials <= GLB_MAX_MATERIALS,
{
    lemma_no_large_image(audit.images, 0);
}

proof fn lemma_no_large_image(images: Seq<(u32, u32)>, from: int)
    requires
        0 <= from <= images.len(),
        large_image(images, from) is None,
    ensures
        forall|i: int|
            from <= i < images.len() ==> (#[trigger] images[i]).0 <= GLB_MAX_TEXTURE_DIM
                && images[i].1 <= GLB_MAX_TEXTURE_DIM,
    decreases images.len() - from,
{
    if from < images.len() {
        lemma_no_large_image(images, from + 1);
    }
}

/// An audit that succeeds says how the container is framed: its first twelve
/// bytes are its own, and its length is its own.
pub proof fn law_audited_containers_are_whole(bytes: Seq<u8>)
    requires
        glb_audited(bytes) is Ok,
    ensures
        bytes.len() >= 12,
        bytes.take(4) == magic(),
        le32(bytes, 4) == 2,
        le32(bytes, 8) == bytes.len(),
{
}

proof fn lemma_no_outside_buffer(buffers: Seq<TreeView>, from: int)
    requires
        0 <= from <= buffers.len(),
        outside_buffer(buffers, from) is None,
    ensures
        forall|i: int|
            from <= i < buffers.len() ==> text_in(#[trigger] buffers[i], "uri"@) is None,
    decreases buffers.len() - from,
{
    if from < buffers.len() {
        lemma_no_outside_buffer(buffers, from + 1);
    }
}

proof fn lemma_images_inside(views: Seq<TreeView>, images: Seq<TreeView>, bin: Seq<u8>, from: int)
    requires
        0 <= from <= images.len(),
        image_sizes(views, images, bin, from) is Ok,
    ensures
        forall|i: int|
            from <= i < images.len() ==> text_in(#[trigger] images[i], "uri"@) is None,
        image_sizes(views, images, bin, from)->Ok_0.len() == images.len() - from,
    decreases images.len() - from,
{
    if from < images.len() {
        lemma_images_inside(views, images, bin, from + 1);
    }
}

/// A model that passes refers to nothing outside and needs no extension, and
/// every image of it was measured.
pub proof fn law_audited_models_are_self_contained(root: TreeView, bin: Seq<u8>)
    requires
        audited(root, bin) is Ok,
    ensures
        list_in(root, "extensionsRequired"@).len() == 0,
        forall|i: int|
            0 <= i < list_in(root, "buffers"@).len() ==> text_in(
                #[trigger] list_in(root, "buffers"@)[i],
                "uri"@,
            ) is None,
        forall|i: int|
            0 <= i < list_in(root, "images"@).len() ==> text_in(
                #[trigger] list_in(root, "images"@)[i],
                "uri"@,
            ) is None,
        audited(root, bin)->Ok_0.images.len() == list_in(root, "images"@).len(),
{
    lemma_no_outside_buffer(list_in(root, "buffers"@), 0);
    lemma_images_inside(list_in(root, "bufferViews"@), list_in(root, "images"@), bin, 0);
}

/// Whether a primitive is counted by `count` vertices: its mode is that of
/// triangles or is not given as a whole number, and the accessor of its indices
/// has that count; only where its indices are no whole number, the accessor of
/// its positions has it.
pub open spec fn has_count(accessors: Seq<TreeView>, primitive: TreeView, count: u64) -> bool {
    &&& primitive.member("mode"@) matches Some(TreeView::Number(Some(mode))) ==> mode == 4
    &&& exists|at: u64| {
        &&& at < accessors.len()
        &&& (#[trigger] accessors[at as int]).member("count"@) == Some(
            TreeView::Number(Some(count)),
        )
        &&& primitive.member("indices"@) == Some(TreeView::Number(Some(at))) || (!(
        primitive.member("indices"@) matches Some(TreeView::Number(Some(_)))) && (
        primitive.member("attributes"@) matches Some(attributes) && attributes.member("POSITION"@)
            == Some(TreeView::Number(Some(at)))))
    }
}

/// The sum of numbers, from one on.
pub open spec fn sum_from(numbers: Seq<nat>, from: int) -> nat
    decreases numbers.len() - from,
{
    if from < 0 || from >= numbers.len() {
        0
    } else {
        numbers[from] + sum_from(numbers, from + 1)
    }
}

/// The triangles that vertices make, three each, from one count on.
pub open spec fn thirds_from(counts: Seq<u64>, from: int) -> nat
    decreases counts.len() - from,
{
    if from < 0 || from >= counts.len() {
        0
    } else {
        (counts[from] / 3) as nat + thirds_from(counts, from + 1)
    }
}

proof fn lemma_mesh_counts(
    accessors: Seq<TreeView>,
    primitives: Seq<TreeView>,
    counts: Seq<u64>,
    mesh: nat,
    from: int,
)
    requires
        0 <= from <= primitives.len(),
        counts.len() == primitives.len(),
        forall|i: int|
            0 <= i < primitives.len() ==> has_count(
                accessors,
                #[trigger] primitives[i],
                counts[i],
            ),
    ensures
        mesh_triangles(accessors, primitives, mesh, from) == Ok::<nat, Seq<char>>(
            thirds_from(counts, from),
        ),
    decreases primitives.len() - from,
{
    if from < primitives.len() {
        lemma_mesh_counts(accessors, primitives, counts, mesh, from + 1);
        assert(has_count(accessors, primitives[from], counts[from]));
    }
}

proof fn lemma_model_counts(
    accessors: Seq<TreeView>,
    meshes: Seq<TreeView>,
    primitives: Seq<Seq<TreeView>>,
    counts: Seq<Seq<u64>>,
    from: int,
)
    requires
        0 <= from <= meshes.len(),
        primitives.len() == meshes.len(),
        counts.len() == meshes.len(),
        forall|i: int|
            0 <= i < meshes.len() ==> (#[trigger] meshes[i]).member("primitives"@) == Some(
                TreeView::List(primitives[i]),
            ) && counts[i].len() == primitives[i].len(),
        forall|i: int, j: int|
            0 <= i < meshes.len() && 0 <= j < primitives[i].len() ==> has_count(
                accessors,
                #[trigger] primitives[i][j],
                counts[i][j],
            ),
    ensures
        model_triangles(accessors, meshes, from) == Ok::<nat, Seq<char>>(
            sum_from(counts.map_values(|of: Seq<u64>| thirds_from(of, 0)), from),
        ),
    decreases meshes.len() - from,
{
    if from < meshes.len() {
        lemma_model_counts(accessors, meshes, primitives, counts, from + 1);
        assert(meshes[from].member("primitives"@) is Some);
        lemma_mesh_counts(accessors, primitives[from], counts[from], from as nat, 0);
    }
}

/// A part of a document that holds a list, if it is there at all.
pub open spec fn holds_list(root: TreeView, name: Seq<char>, items: Seq<TreeView>) -> bool {
    match root.member(name) {
        Some(TreeView::List(found)) => items == found,
        _ => items.len() == 0,
    }
}

/// Whether an image is embedded in the binary chunk, with this many pixels in a
/// row and this many rows.
pub open spec fn is_embedded(
    views: Seq<TreeView>,
    image: TreeView,
    bin: Seq<u8>,
    size: (u32, u32),
) -> bool {
    &&& !(image.member("uri"@) matches Some(TreeView::Text(_)))
    &&& image.member("mimeType"@) == Some(TreeView::Text("image/png"@))
    &&& exists|at: u64, offset: u64, length: u64| {
        &&& image.member("bufferView"@) == Some(TreeView::Number(Some(at)))
        &&& at < views.len()
        &&& #[trigger] in_view(views[at as int], offset, length)
        &&& offset + length <= bin.len()
        &&& length >= 24
        &&& bin[offset as int] == 0x89
        &&& bin[offset + 1] == 0x50
        &&& bin[offset + 2] == 0x4e
        &&& bin[offset + 3] == 0x47
        &&& bin[offset + 4] == 0x0d
        &&& bin[offset + 5] == 0x0a
        &&& bin[offset + 6] == 0x1a
        &&& bin[offset + 7] == 0x0a
        &&& size.0 == bin[offset + 16] * 16777216 + bin[offset + 17] * 65536 + bin[offset + 18]
            * 256 + bin[offset + 19]
        &&& size.1 == bin[offset + 20] * 16777216 + bin[offset + 21] * 65536 + bin[offset + 22]
            * 256 + bin[offset + 23]
    }
}

/// Whether a buffer view starts at an offset, zero where none is given, and has
/// a length.
pub open spec fn in_view(view: TreeView, offset: u64, length: u64) -> bool {
    &&& view.member("byteLength"@) == Some(TreeView::Number(Some(length)))
    &&& match view.member("byteOffset"@) {
        Some(TreeView::Number(Some(given))) => offset == given,
        _ => offset == 0,
    }
}

proof fn lemma_embedded_size(
    views: Seq<TreeView>,
    image: TreeView,
    bin: Seq<u8>,
    size: (u32, u32),
    index: nat,
)
    requires
        is_embedded(views, image, bin, size),
    ensures
        image_size(views, image, bin, index) == Ok::<(u32, u32), Seq<char>>(size),
{
    let (at, offset, length) = choose|at: u64, offset: u64, length: u64| {
        &&& image.member("bufferView"@) == Some(TreeView::Number(Some(at)))
        &&& at < views.len()
        &&& #[trigger] in_view(views[at as int], offset, length)
        &&& offset + length <= bin.len()
        &&& length >= 24
        &&& bin[offset as int] == 0x89
        &&& bin[offset + 1] == 0x50
        &&& bin[offset + 2] == 0x4e
        &&& bin[offset + 3] == 0x47
        &&& bin[offset + 4] == 0x0d
        &&& bin[offset + 5] == 0x0a
        &&& bin[offset + 6] == 0x1a
        &&& bin[offset + 7] == 0x0a
        &&& size.0 == bin[offset + 16] * 16777216 + bin[offset + 17] * 65536 + bin[offset + 18]
            * 256 + bin[offset + 19]
        &&& size.1 == bin[offset + 20] * 16777216 + bin[offset + 21] * 65536 + bin[offset + 22]
            * 256 + bin[offset + 23]
    };
    let png = bin.subrange(offset as int, offset + length);
    assert(png.take(8) =~= png_signature());
    assert(be32(png, 16) == size.0);
    assert(be32(png, 20) == size.1);
}

proof fn lemma_size_embedded(views: Seq<TreeView>, image: TreeView, bin: Seq<u8>, index: nat)
    requires
        image_size(views, image, bin, index) is Ok,
    ensures
        is_embedded(views, image, bin, image_size(views, image, bin, index)->Ok_0),
{
    let at = whole_in(image, "bufferView"@)->0;
    let view = views[at as int];
    let length = whole_in(view, "byteLength"@)->0;
    let offset: u64 = match whole_in(view, "byteOffset"@) {
        Some(offset) => offset,
        None => 0,
    };
    let png = bin.subrange(offset as int, offset + length);
    assert(in_view(view, offset, length));
    assert(png.take(8)[0] == 0x89 && png.take(8)[1] == 0x50 && png.take(8)[2] == 0x4e
        && png.take(8)[3] == 0x47 && png.take(8)[4] == 0x0d && png.take(8)[5] == 0x0a
        && png.take(8)[6] == 0x1a && png.take(8)[7] == 0x0a);
    reveal_strlit("");
    reveal_strlit("image/png");
    assert(""@.len() != "image/png"@.len());
}

proof fn lemma_embedded_sizes(
    views: Seq<TreeView>,
    images: Seq<TreeView>,
    bin: Seq<u8>,
    sizes: Seq<(u32, u32)>,
    from: int,
)
    requires
        0 <= from <= images.len(),
        sizes.len() == images.len(),
        forall|i: int|
            0 <= i < images.len() ==> is_embedded(views, #[trigger] images[i], bin, sizes[i]),
    ensures
        image_sizes(views, images, bin, from) == Ok::<Seq<(u32, u32)>, Seq<char>>(
            sizes.skip(from),
        ),
    decreases images.len() - from,
{
    if from < images.len() {
        lemma_embedded_sizes(views, images, bin, sizes, from + 1);
        lemma_embedded_size(views, images[from], bin, sizes[from], from as nat);
        assert(sizes.skip(from) =~= seq![sizes[from]] + sizes.skip(from + 1));
    } else {
        assert(sizes.skip(from) =~= Seq::empty());
    }
}

/// The bytes that images take, four for each pixel.
pub open spec fn pixels_times_four(sizes: Seq<(u32, u32)>) -> Seq<nat> {
    sizes.map_values(|size: (u32, u32)| (size.0 * size.1 * 4) as nat)
}

proof fn lemma_sum_drops_last(numbers: Seq<nat>, from: int)
    requires
        0 <= from < numbers.len(),
    ensures
        sum_from(numbers, from) == sum_from(numbers.drop_last(), from) + numbers.last(),
    decreases numbers.len() - from,
{
    if from + 1 < numbers.len() {
        lemma_sum_drops_last(numbers, from + 1);
    } else {
        assert(sum_from(numbers, from + 1) == 0);
        assert(sum_from(numbers.drop_last(), from) == 0);
    }
}

proof fn lemma_decoded_bytes(sizes: Seq<(u32, u32)>)
    ensures
        decoded_bytes(sizes) == sum_from(pixels_times_four(sizes), 0),
    decreases sizes.len(),
{
    if sizes.len() > 0 {
        lemma_decoded_bytes(sizes.drop_last());
        lemma_sum_drops_last(pixels_times_four(sizes), 0);
        assert(pixels_times_four(sizes).drop_last() =~= pixels_times_four(sizes.drop_last()));
    }
}

proof fn lemma_outside_buffer_is_none(buffers: Seq<TreeView>, from: int)
    requires
        0 <= from <= buffers.len(),
        forall|i: int|
            0 <= i < buffers.len() ==> !((#[trigger] buffers[i]).member("uri"@) matches Some(
                TreeView::Text(_),
            )),
    ensures
        outside_buffer(buffers, from) is None,
    decreases buffers.len() - from,
{
    if from < buffers.len() {
        assert(!(buffers[from].member("uri"@) matches Some(TreeView::Text(_))));
        lemma_outside_buffer_is_none(buffers, from + 1);
    }
}

/// What a sound document is audited to. Its triangles are a third of the count
/// of each primitive's indices, or of its positions where it has no indices,
/// rounded down primitive by primitive; its images have the sizes that their
/// headers give, and take four bytes a pixel on top of the binary chunk.
pub proof fn law_sound_models_are_measured(
    root: TreeView,
    bin: Seq<u8>,
    accessors: Seq<TreeView>,
    meshes: Seq<TreeView>,
    primitives: Seq<Seq<TreeView>>,
    counts: Seq<Seq<u64>>,
    materials: Seq<TreeView>,
    views: Seq<TreeView>,
    images: Seq<TreeView>,
    sizes: Seq<(u32, u32)>,
    buffers: Seq<TreeView>,
)
    requires
        holds_list(root, "extensionsRequired"@, Seq::empty()),
        holds_list(root, "buffers"@, buffers),
        holds_list(root, "accessors"@, accessors),
        holds_list(root, "meshes"@, meshes),
        holds_list(root, "materials"@, materials),
        holds_list(root, "bufferViews"@, views),
        holds_list(root, "images"@, images),
        forall|i: int|
            0 <= i < buffers.len() ==> !((#[trigger] buffers[i]).member("uri"@) matches Some(
                TreeView::Text(_),
            )),
        primitives.len() == meshes.len(),
        counts.len() == meshes.len(),
        forall|i: int|
            0 <= i < meshes.len() ==> (#[trigger] meshes[i]).member("primitives"@) == Some(
                TreeView::List(primitives[i]),
            ) && counts[i].len() == primitives[i].len(),
        forall|i: int, j: int|
            0 <= i < meshes.len() && 0 <= j < primitives[i].len() ==> has_count(
                accessors,
                #[trigger] primitives[i][j],
                counts[i][j],
            ),
        sizes.len() == images.len(),
        forall|i: int|
            0 <= i < images.len() ==> is_embedded(views, #[trigger] images[i], bin, sizes[i]),
    ensures
        audited(root, bin) is Ok,
        audited(root, bin)->Ok_0.triangles == sum_from(
            counts.map_values(|of: Seq<u64>| thirds_from(of, 0)),
            0,
        ),
        audited(root, bin)->Ok_0.materials == materials.len(),
        audited(root, bin)->Ok_0.images == sizes,
        audited(root, bin)->Ok_0.bin_bytes == bin.len(),
        audited(root, bin)->Ok_0.decoded_estimate_bytes == bin.len() + sum_from(
            pixels_times_four(sizes),
            0,
        ),
{
    assert(list_in(root, "extensionsRequired"@) =~= Seq::empty());
    assert(list_in(root, "buffers"@) =~= buffers);
    assert(list_in(root, "accessors"@) =~= accessors);
    assert(list_in(root, "meshes"@) =~= meshes);
    assert(list_in(root, "materials"@) =~= materials);
    assert(list_in(root, "bufferViews"@) =~= views);
    assert(list_in(root, "images"@) =~= images);
    lemma_outside_buffer_is_none(buffers, 0);
    lemma_model_counts(accessors, meshes, primitives, counts, 0);
    lemma_embedded_sizes(views, images, bin, sizes, 0);
    assert(sizes.skip(0) =~= sizes);
    lemma_decoded_bytes(sizes);
}

proof fn lemma_counted_primitive(
    accessors: Seq<TreeView>,
    primitives: Seq<TreeView>,
    mesh: nat,
    from: int,
    at: int,
)
    requires
        0 <= from <= at < primitives.len(),
        mesh_triangles(accessors, primitives, mesh, from) is Ok,
    ensures
        exists|count: u64| has_count(accessors, primitives[at], count),
    decreases primitives.len() - from,
{
    if from == at {
        let primitive = primitives[at];
        let accessor = count_accessor(primitive)->0;
        let count = whole_in(accessors[accessor as int], "count"@)->0;
        assert(accessors[accessor as int].member("count"@) == Some(TreeView::Number(Some(count))));
        assert(has_count(accessors, primitive, count));
    } else {
        lemma_counted_primitive(accessors, primitives, mesh, from + 1, at);
    }
}

proof fn lemma_counted_mesh(
    accessors: Seq<TreeView>,
    meshes: Seq<TreeView>,
    from: int,
    at: int,
)
    requires
        0 <= from <= at < meshes.len(),
        model_triangles(accessors, meshes, from) is Ok,
    ensures
        mesh_triangles(accessors, list_in(meshes[at], "primitives"@), at as nat, 0) is Ok,
    decreases meshes.len() - from,
{
    if from < at {
        lemma_counted_mesh(accessors, meshes, from + 1, at);
    }
}

proof fn lemma_measured_image(
    views: Seq<TreeView>,
    images: Seq<TreeView>,
    bin: Seq<u8>,
    from: int,
    at: int,
)
    requires
        0 <= from <= at < images.len(),
        image_sizes(views, images, bin, from) is Ok,
    ensures
        image_sizes(views, images, bin, from)->Ok_0.len() == images.len() - from,
        is_embedded(
            views,
            images[at],
            bin,
            image_sizes(views, images, bin, from)->Ok_0[at - from],
        ),
    decreases images.len() - from,
{
    lemma_images_inside(views, images, bin, from);
    if from == at {
        lemma_size_embedded(views, images[at], bin, at as nat);
    } else {
        lemma_measured_image(views, images, bin, from + 1, at);
    }
}

/// Only sound documents pass: none needs an extension or refers to a buffer
/// outside, every primitive of every mesh is of triangles and has a count, and
/// every image is an embedded one of the size that was found.
pub proof fn law_only_sound_models_pass(
    root: TreeView,
    bin: Seq<u8>,
    mesh: int,
    primitive: int,
    image: int,
    buffer: int,
)
    requires
        audited(root, bin) is Ok,
    ensures
        holds_list(root, "extensionsRequired"@, Seq::empty()),
        root.member("buffers"@) matches Some(TreeView::List(buffers)) && 0 <= buffer
            < buffers.len() ==> !(root.member("buffers"@)->0->List_0[buffer].member(
            "uri"@,
        ) matches Some(TreeView::Text(_))),
        root.member("images"@) matches Some(TreeView::List(images)) && 0 <= image < images.len()
            ==> exists|views: Seq<TreeView>| {
            &&& #[trigger] holds_list(root, "bufferViews"@, views)
            &&& is_embedded(
                views,
                root.member("images"@)->0->List_0[image],
                bin,
                audited(root, bin)->Ok_0.images[image],
            )
        },
        (root.member("meshes"@) matches Some(TreeView::List(meshes)) && 0 <= mesh < meshes.len()
            && (meshes[mesh].member("primitives"@) matches Some(TreeView::List(primitives)) && 0
            <= primitive < primitives.len())) ==> exists|accessors: Seq<TreeView>, count: u64| {
            &&& #[trigger] holds_list(root, "accessors"@, accessors)
            &&& #[trigger] has_count(
                accessors,
                root.member("meshes"@)->0->List_0[mesh].member("primitives"@)->0->List_0[primitive],
                count,
            )
        },
{
    law_audited_models_are_self_contained(root, bin);
    assert(list_in(root, "extensionsRequired"@) =~= Seq::empty());
    if root.member("images"@) is Some && root.member("images"@)->0 is List {
        let images = list_in(root, "images"@);
        let views = list_in(root, "bufferViews"@);
        if 0 <= image < images.len() {
            lemma_measured_image(views, images, bin, 0, image);
            assert(holds_list(root, "bufferViews"@, views));
        }
    }
    if root.member("buffers"@) is Some && root.member("buffers"@)->0 is List {
        let buffers = list_in(root, "buffers"@);
        if 0 <= buffer < buffers.len() {
            assert(text_in(buffers[buffer], "uri"@) is None);
        }
    }
    if root.member("meshes"@) is Some && root.member("meshes"@)->0 is List {
        let meshes = list_in(root, "meshes"@);
        let accessors = list_in(root, "accessors"@);
        assert(holds_list(root, "accessors"@, accessors));
        if 0 <= mesh < meshes.len() {
            let primitives = list_in(meshes[mesh], "primitives"@);
            lemma_counted_mesh(accessors, meshes, 0, mesh);
            if 0 <= primitive < primitives.len() {
                lemma_counted_primitive(accessors, primitives, mesh as nat, 0, primitive);
                let count = choose|count: u64| has_count(accessors, primitives[primitive], count);
                assert(has_count(accessors, primitives[primitive], count));
            }
        }
    }
}

/// Whether four bytes spell a number, the lowest first.
pub open spec fn spells(bytes: Seq<u8>, number: int) -> bool {
    &&& bytes.len() == 4
    &&& number == bytes[0] + bytes[1] * 256 + bytes[2] * 65536 + bytes[3] * 16777216
}

proof fn lemma_le32_of(bytes: Seq<u8>, at: int, four: Seq<u8>, number: int)
    requires
        0 <= at,
        at + 4 <= bytes.len(),
        bytes.subrange(at, at + 4) == four,
        spells(four, number),
    ensures
        le32(bytes, at) == number,
{
    assert(four[0] == bytes[at] && four[1] == bytes[at + 1] && four[2] == bytes[at + 2] && four[3]
        == bytes[at + 3]);
}

/// Whether a container starts by the book: with its name, the version, its own
/// length, and the head of a JSON chunk of so many bytes that lie within it.
pub open spec fn starts_by_the_book(bytes: Seq<u8>, json: int) -> bool {
    &&& 0 <= json
    &&& 20 + json <= bytes.len()
    &&& bytes.subrange(0, 4) == seq![0x67u8, 0x6c, 0x54, 0x46]
    &&& spells(bytes.subrange(4, 8), 2)
    &&& spells(bytes.subrange(8, 12), bytes.len() as int)
    &&& spells(bytes.subrange(12, 16), json)
    &&& bytes.subrange(16, 20) == seq![0x4au8, 0x53, 0x4f, 0x4e]
}

proof fn lemma_starts_by_the_book(bytes: Seq<u8>, json: int)
    requires
        starts_by_the_book(bytes, json),
    ensures
        framed(bytes) == walked(
            bytes,
            aligned(20 + json),
            Some(bytes.subrange(20, 20 + json)),
            None,
        ),
{
    assert(bytes.take(4) =~= bytes.subrange(0, 4));
    lemma_le32_of(bytes, 4, bytes.subrange(4, 8), 2);
    lemma_le32_of(bytes, 8, bytes.subrange(8, 12), bytes.len() as int);
    lemma_le32_of(bytes, 12, bytes.subrange(12, 16), json);
    lemma_le32_of(bytes, 16, bytes.subrange(16, 20), JSON_CHUNK as int);
}

/// A container of a JSON chunk alone is read back.
pub proof fn law_documents_read_back(bytes: Seq<u8>, json: int)
    requires
        starts_by_the_book(bytes, json),
        bytes.len() <= 20 + json + (4 - json % 4) % 4,
    ensures
        framed(bytes) == Ok::<ChunksView, Seq<char>>(
            ChunksView { json: bytes.subrange(20, 20 + json), bin: Seq::empty() },
        ),
{
    lemma_starts_by_the_book(bytes, json);
}

/// A container of a JSON chunk and, at the next multiple of four, a binary
/// chunk is read back.
pub proof fn law_containers_read_back(bytes: Seq<u8>, json: int, at: int, bin: int)
    requires
        starts_by_the_book(bytes, json),
        20 + json <= at < 24 + json,
        at % 4 == 0,
        0 <= bin,
        at + 8 + bin <= bytes.len() < at + 12 + bin,
        bytes.len() % 4 == 0 || bytes.len() == at + 8 + bin,
        spells(bytes.subrange(at, at + 4), bin),
        bytes.subrange(at + 4, at + 8) == seq![0x42u8, 0x49, 0x4e, 0x00],
    ensures
        framed(bytes) == Ok::<ChunksView, Seq<char>>(
            ChunksView {
                json: bytes.subrange(20, 20 + json),
                bin: bytes.subrange(at + 8, at + 8 + bin),
            },
        ),
{
    lemma_starts_by_the_book(bytes, json);
    lemma_le32_of(bytes, at, bytes.subrange(at, at + 4), bin);
    lemma_le32_of(bytes, at + 4, bytes.subrange(at + 4, at + 8), BIN_CHUNK as int);
    lemma_aligned(20 + json, at);
    let last = at + 8 + bin;
    lemma_reaches(last, bytes.len() as int);
    let first = Some(bytes.subrange(20, 20 + json));
    let second = Some(bytes.subrange(at + 8, last));
    assert(walked(bytes, at, first, None) == walked(bytes, aligned(last), first, second));
    assert(walked(bytes, aligned(last), first, second) is Ok);
}

proof fn lemma_aligned(end: int, at: int)
    requires
        end <= at < end + 4,
        at % 4 == 0,
    ensures
        aligned(end) == at,
{
}

proof fn lemma_reaches(last: int, len: int)
    requires
        last <= len < last + 4,
        len % 4 == 0 || len == last,
    ensures
        aligned(last) >= len,
{
}

/// A container that passes is written by the book: behind twelve bytes of
/// header stands the JSON chunk, and behind that, at the next multiple of four,
/// the binary chunk to the end, or nothing.
pub proof fn law_framed_containers_are_by_the_book(bytes: Seq<u8>)
    requires
        framed(bytes) is Ok,
    ensures
        ({
            let chunks = framed(bytes)->Ok_0;
            let end = 20 + chunks.json.len() as int;
            let next = if end % 4 == 0 {
                end
            } else {
                end + 4 - end % 4
            };
            let last = next + 8 + chunks.bin.len();
            &&& bytes.len() >= end
            &&& bytes.take(4) == seq![0x67u8, 0x6c, 0x54, 0x46]
            &&& spells(bytes.subrange(4, 8), 2)
            &&& spells(bytes.subrange(8, 12), bytes.len() as int)
            &&& spells(bytes.subrange(12, 16), chunks.json.len() as int)
            &&& bytes.subrange(16, 20) == seq![0x4au8, 0x53, 0x4f, 0x4e]
            &&& bytes.subrange(20, end as int) == chunks.json
            &&& bytes.len() > next ==> {
                &&& last <= bytes.len() <= last + 3
                &&& spells(bytes.subrange(next as int, next + 4), chunks.bin.len() as int)
                &&& bytes.subrange(next + 4, next + 8) == seq![0x42u8, 0x49, 0x4e, 0x00]
                &&& bytes.subrange(next + 8, last as int) == chunks.bin
            }
            &&& bytes.len() <= next ==> chunks.bin.len() == 0
        }),
{
    let chunks = framed(bytes)->Ok_0;
    assert(bytes.len() > 12);
    let n = le32(bytes, 12);
    let end = 20 + n as int;
    assert(le32(bytes, 16) == JSON_CHUNK) by {
        if le32(bytes, 16) == BIN_CHUNK {
            lemma_no_document_behind_binary(bytes, aligned(end), bytes.subrange(20, end));
        }
    }
    lemma_spelled_kind(bytes, 16);
    let next = aligned(end);
    let json = bytes.subrange(20, end);
    assert(walked(bytes, next, Some(json), None) == Ok::<ChunksView, Seq<char>>(chunks));
    if next < bytes.len() {
        let last = next + 8 + le32(bytes, next);
        lemma_spelled_kind(bytes, next + 4);
        assert(le32(bytes, next + 4) == BIN_CHUNK);
        let bin = bytes.subrange(next + 8, last);
        assert(walked(bytes, aligned(last), Some(json), Some(bin)) == Ok::<ChunksView, Seq<char>>(
            chunks,
        ));
    }
}

proof fn lemma_spelled_kind(bytes: Seq<u8>, at: int)
    requires
        0 <= at,
        at + 4 <= bytes.len(),
    ensures
        le32(bytes, at) == JSON_CHUNK ==> bytes.subrange(at, at + 4) == seq![
            0x4au8,
            0x53,
            0x4f,
            0x4e,
        ],
        le32(bytes, at) == BIN_CHUNK ==> bytes.subrange(at, at + 4) == seq![
            0x42u8,
            0x49,
            0x4e,
            0x00,
        ],
{
    if le32(bytes, at) == JSON_CHUNK {
        assert(bytes.subrange(at, at + 4) =~= seq![0x4au8, 0x53, 0x4f, 0x4e]);
    }
    if le32(bytes, at) == BIN_CHUNK {
        assert(bytes.subrange(at, at + 4) =~= seq![0x42u8, 0x49, 0x4e, 0x00]);
    }
}

proof fn lemma_no_document_behind_binary(bytes: Seq<u8>, offset: int, bin: Seq<u8>)
    requires
        offset >= 0,
    ensures
        walked(bytes, offset, None, Some(bin)) is Err,
{
}

/// A model is within its budgets exactly if it has at most 5000 triangles, 8
/// materials and 4 images, none wider or higher than 2048, and takes at most
/// 20 MiB; otherwise the sentence starts with what was measured.
pub proof fn law_budgets_are_what_they_say(audit: AuditView)
    ensures
        over_budget(audit) is None <==> {
            &&& audit.triangles <= 5000
            &&& audit.materials <= 8
            &&& audit.images.len() <= 4
            &&& forall|i: int|
                0 <= i < audit.images.len() ==> (#[trigger] audit.images[i]).0 <= 2048
                    && audit.images[i].1 <= 2048
            &&& audit.decoded_estimate_bytes <= 20 * 1024 * 1024
        },
        audit.triangles > 5000 ==> decimal(audit.triangles).is_prefix_of(over_budget(audit)->0),
        audit.triangles <= 5000 && audit.materials > 8 ==> decimal(audit.materials).is_prefix_of(
            over_budget(audit)->0,
        ),
        audit.triangles <= 5000 && audit.materials <= 8 && audit.images.len() > 4 ==> decimal(
            audit.images.len(),
        ).is_prefix_of(over_budget(audit)->0),
{
    if over_budget(audit) is None {
        law_budgets_bound_the_images(audit);
    }
    if forall|i: int|
        0 <= i < audit.images.len() ==> (#[trigger] audit.images[i]).0 <= 2048
            && audit.images[i].1 <= 2048 {
        lemma_small_images(audit.images, 0);
    }
}

proof fn lemma_small_images(images: Seq<(u32, u32)>, from: int)
    requires
        0 <= from <= images.len(),
        forall|i: int|
            0 <= i < images.len() ==> (#[trigger] images[i]).0 <= 2048 && images[i].1 <= 2048,
    ensures
        large_image(images, from) is None,
    decreases images.len() - from,
{
    if from < images.len() {
        lemma_small_images(images, from + 1);
    }
}

/// Whether a primitive is counted by some number of vertices.
pub open spec fn can_be_counted(accessors: Seq<TreeView>, primitive: TreeView) -> bool {
    exists|count: u64| has_count(accessors, primitive, count)
}

proof fn lemma_counted_before(
    accessors: Seq<TreeView>,
    primitives: Seq<TreeView>,
    mesh: nat,
    from: int,
    at: int,
)
    requires
        0 <= from <= at < primitives.len(),
        forall|i: int|
            0 <= i < at ==> can_be_counted(accessors, #[trigger] primitives[i]),
        primitive_triangles(accessors, primitives[at], mesh, at as nat) is Err,
    ensures
        mesh_triangles(accessors, primitives, mesh, from) is Err,
        mesh_triangles(accessors, primitives, mesh, from)->Err_0 == primitive_triangles(
            accessors,
            primitives[at],
            mesh,
            at as nat,
        )->Err_0,
    decreases at - from,
{
    if from < at {
        assert(can_be_counted(accessors, primitives[from]));
        let count = choose|count: u64| has_count(accessors, primitives[from], count);
        assert(has_count(accessors, primitives[from], count));
        lemma_counted_before(accessors, primitives, mesh, from + 1, at);
    }
}

/// Whether every primitive of a mesh is counted.
pub open spec fn is_counted(accessors: Seq<TreeView>, mesh: TreeView) -> bool {
    exists|primitives: Seq<TreeView>| {
        &&& #[trigger] holds_list(mesh, "primitives"@, primitives)
        &&& forall|i: int|
            0 <= i < primitives.len() ==> can_be_counted(accessors, #[trigger] primitives[i])
    }
}

proof fn lemma_counted_mesh_is_fine(accessors: Seq<TreeView>, mesh: TreeView, index: nat)
    requires
        is_counted(accessors, mesh),
    ensures
        mesh_triangles(accessors, list_in(mesh, "primitives"@), index, 0) is Ok,
{
    let primitives = choose|primitives: Seq<TreeView>| {
        &&& #[trigger] holds_list(mesh, "primitives"@, primitives)
        &&& forall|i: int|
            0 <= i < primitives.len() ==> can_be_counted(accessors, #[trigger] primitives[i])
    };
    assert(list_in(mesh, "primitives"@) =~= primitives);
    let counts = Seq::new(
        primitives.len(),
        |i: int| choose|count: u64| has_count(accessors, primitives[i], count),
    );
    assert forall|i: int| 0 <= i < primitives.len() implies has_count(
        accessors,
        #[trigger] primitives[i],
        counts[i],
    ) by {
        assert(can_be_counted(accessors, primitives[i]));
        let count = choose|count: u64| has_count(accessors, primitives[i], count);
        assert(has_count(accessors, primitives[i], count));
    }
    lemma_mesh_counts(accessors, primitives, counts, index, 0);
}

proof fn lemma_meshes_before(accessors: Seq<TreeView>, meshes: Seq<TreeView>, from: int, at: int)
    requires
        0 <= from <= at < meshes.len(),
        forall|i: int| 0 <= i < at ==> is_counted(accessors, #[trigger] meshes[i]),
        mesh_triangles(accessors, list_in(meshes[at], "primitives"@), at as nat, 0) is Err,
    ensures
        model_triangles(accessors, meshes, from) is Err,
        model_triangles(accessors, meshes, from)->Err_0 == mesh_triangles(
            accessors,
            list_in(meshes[at], "primitives"@),
            at as nat,
            0,
        )->Err_0,
    decreases at - from,
{
    if from < at {
        lemma_counted_mesh_is_fine(accessors, meshes[from], from as nat);
        lemma_meshes_before(accessors, meshes, from + 1, at);
    }
}

/// What a document is refused for that is sound up to a primitive: a mode that
/// is not of triangles is named with the mesh, the primitive and the mode;
/// neither indices nor positions with the mesh and the primitive; and an
/// accessor that is missing, or has no count, by its number.
pub proof fn law_refusals_name_the_primitive(
    root: TreeView,
    bin: Seq<u8>,
    buffers: Seq<TreeView>,
    accessors: Seq<TreeView>,
    meshes: Seq<TreeView>,
    primitives: Seq<TreeView>,
    mesh: int,
    primitive: int,
)
    requires
        holds_list(root, "extensionsRequired"@, Seq::empty()),
        holds_list(root, "buffers"@, buffers),
        holds_list(root, "accessors"@, accessors),
        holds_list(root, "meshes"@, meshes),
        forall|i: int|
            0 <= i < buffers.len() ==> !((#[trigger] buffers[i]).member("uri"@) matches Some(
                TreeView::Text(_),
            )),
        0 <= mesh < meshes.len(),
        forall|i: int| 0 <= i < mesh ==> is_counted(accessors, #[trigger] meshes[i]),
        meshes[mesh].member("primitives"@) == Some(TreeView::List(primitives)),
        0 <= primitive < primitives.len(),
        forall|i: int|
            0 <= i < primitive ==> can_be_counted(accessors, #[trigger] primitives[i]),
    ensures
        ({
            let wrong = primitives[primitive];
            let place = "meshes["@ + decimal(mesh as nat) + "].primitives["@ + decimal(
                primitive as nat,
            ) + "]"@;
            let verdict = audited(root, bin);
            &&& wrong.member("mode"@) matches Some(TreeView::Number(Some(mode))) ==> (mode != 4
                ==> verdict == Err::<AuditView, Seq<char>>(
                place + " uses mode "@ + decimal(mode as nat)
                    + "; only TRIANGLES (4) is budgeted"@,
            ))
            &&& wrong.member("mode"@) is None && wrong.member("indices"@) is None
                && wrong.member("attributes"@) is None ==> verdict == Err::<AuditView, Seq<char>>(
                place + " has neither indices nor a POSITION attribute"@,
            )
            &&& wrong.member("mode"@) is None ==> (wrong.member("indices"@) matches Some(
                TreeView::Number(Some(at)),
            ) ==> (at >= accessors.len() || accessors[at as int].member("count"@) is None
                ==> verdict == Err::<AuditView, Seq<char>>(
                "accessor "@ + decimal(at as nat) + " is missing or has no count"@,
            )))
        }),
{
    assert(list_in(root, "extensionsRequired"@) =~= Seq::empty());
    assert(list_in(root, "buffers"@) =~= buffers);
    assert(list_in(root, "accessors"@) =~= accessors);
    assert(list_in(root, "meshes"@) =~= meshes);
    lemma_outside_buffer_is_none(buffers, 0);
    assert(list_in(meshes[mesh], "primitives"@) == primitives);
    let found = primitive_triangles(
        accessors,
        primitives[primitive],
        mesh as nat,
        primitive as nat,
    );
    if found is Err {
        lemma_counted_before(accessors, primitives, mesh as nat, 0, primitive);
        lemma_meshes_before(accessors, meshes, 0, mesh);
    }
}

/// A document that needs an extension is refused whatever else it holds, and one
/// that refers to a buffer outside is refused by the first such, with its number
/// and where it refers to.
pub proof fn law_refusals_name_what_is_outside(
    root: TreeView,
    bin: Seq<u8>,
    items: Seq<TreeView>,
    buffers: Seq<TreeView>,
    at: int,
    uri: Seq<char>,
)
    ensures
        root.member("extensionsRequired"@) == Some(TreeView::List(items)) && items.len() > 0 ==> (
        audited(root, bin) matches Err(message) && "extensionsRequired lists ["@.is_prefix_of(
            message,
        )),
        holds_list(root, "extensionsRequired"@, Seq::empty()) && root.member("buffers"@) == Some(
            TreeView::List(buffers),
        ) && 0 <= at < buffers.len() && buffers[at].member("uri"@) == Some(TreeView::Text(uri)) && (
        forall|i: int|
            0 <= i < at ==> (#[trigger] buffers[i]).member("uri"@) is None) ==> audited(root, bin)
            == Err::<AuditView, Seq<char>>(
            "buffers"@ + "["@ + decimal(at as nat) + "] references external uri '"@ + uri
                + "'; embedded scene assets must be self-contained"@,
        ),
{
    if root.member("extensionsRequired"@) == Some(TreeView::List(items)) && items.len() > 0 {
        assert(list_in(root, "extensionsRequired"@) == items);
        let head = "extensionsRequired lists ["@;
        let message = audited(root, bin)->Err_0;
        assert(head =~= message.subrange(0, head.len() as int));
    }
    if holds_list(root, "extensionsRequired"@, Seq::empty()) && root.member("buffers"@) == Some(
        TreeView::List(buffers),
    ) && 0 <= at < buffers.len() && buffers[at].member("uri"@) == Some(TreeView::Text(uri)) && (
    forall|i: int| 0 <= i < at ==> (#[trigger] buffers[i]).member("uri"@) is None) {
        assert(list_in(root, "extensionsRequired"@) =~= Seq::empty());
        assert(list_in(root, "buffers"@) == buffers);
        lemma_first_outside(buffers, 0, at, uri);
    }
}

proof fn lemma_first_outside(buffers: Seq<TreeView>, from: int, at: int, uri: Seq<char>)
    requires
        0 <= from <= at < buffers.len(),
        buffers[at].member("uri"@) == Some(TreeView::Text(uri)),
        forall|i: int| 0 <= i < at ==> (#[trigger] buffers[i]).member("uri"@) is None,
    ensures
        outside_buffer(buffers, from) == Some(refers_outside("buffers"@, at as nat, uri)),
    decreases at - from,
{
    if from < at {
        assert(buffers[from].member("uri"@) is None);
        lemma_first_outside(buffers, from + 1, at, uri);
    }
}

/// What a container is refused for before anything in it is read.
pub proof fn law_refusals_of_containers(bytes: Seq<u8>, version: int, length: int)
    ensures
        bytes.len() < 12 ==> framed(bytes) == Err::<ChunksView, Seq<char>>(
            "file is shorter than the 12-byte GLB header"@,
        ),
        bytes.len() >= 12 && bytes.subrange(0, 4) != seq![0x67u8, 0x6c, 0x54, 0x46] ==> framed(bytes)
            == Err::<ChunksView, Seq<char>>("magic is not 'glTF'"@),
        bytes.len() >= 12 && bytes.subrange(0, 4) == seq![0x67u8, 0x6c, 0x54, 0x46] && spells(
            bytes.subrange(4, 8),
            version,
        ) && version != 2 ==> framed(bytes) == Err::<ChunksView, Seq<char>>(
            "container version is "@ + decimal(version as nat) + ", not 2"@,
        ),
        bytes.len() >= 12 && bytes.subrange(0, 4) == seq![0x67u8, 0x6c, 0x54, 0x46] && spells(
            bytes.subrange(4, 8),
            2,
        ) && spells(bytes.subrange(8, 12), length) && length != bytes.len() ==> framed(bytes)
            == Err::<ChunksView, Seq<char>>(
            "declared length "@ + decimal(length as nat) + " does not match file length "@
                + decimal(bytes.len()),
        ),
{
    if bytes.len() >= 12 {
        assert(bytes.take(4) =~= bytes.subrange(0, 4));
        if spells(bytes.subrange(4, 8), version) {
            lemma_le32_of(bytes, 4, bytes.subrange(4, 8), version);
        }
        if spells(bytes.subrange(4, 8), 2) {
            lemma_le32_of(bytes, 4, bytes.subrange(4, 8), 2);
        }
        if spells(bytes.subrange(8, 12), length) {
            lemma_le32_of(bytes, 8, bytes.subrange(8, 12), length);
        }
    }
}

/// The names of extensions are listed with commas between them; what is no text
/// is left out.
pub proof fn law_extensions_are_listed(first: Seq<char>, second: Seq<char>)
    ensures
        listed(Seq::empty(), 0, true).len() == 0,
        listed(seq![TreeView::Text(first)], 0, true) == first,
        listed(seq![TreeView::Text(first), TreeView::Text(second)], 0, true) == first + seq![
            ',',
            ' ',
        ] + second,
        listed(seq![TreeView::Null, TreeView::Text(first)], 0, true) == first,
{
    reveal_strlit(", ");
    assert(", "@ =~= seq![',', ' ']);
    reveal_with_fuel(listed, 4);
    let one = seq![TreeView::Text(first)];
    let two = seq![TreeView::Text(first), TreeView::Text(second)];
    let blank = seq![TreeView::Null, TreeView::Text(first)];
    assert(listed(one, 1, false) =~= Seq::empty());
    assert(listed(one, 0, true) =~= first);
    assert(listed(two, 1, false) =~= seq![',', ' '] + second);
    assert(listed(two, 0, true) =~= first + seq![',', ' '] + second);
    assert(listed(blank, 1, true) =~= first);
}

/// Counts fit up to the largest number of sixty-four bits.
pub proof fn law_counts_that_fit(result: Result<AuditView, Seq<char>>)
    ensures
        countable(result) <==> (result matches Ok(audit) ==> audit.triangles
            <= 18446744073709551615 && audit.decoded_estimate_bytes <= 18446744073709551615),
{
}

} // verus!
