//! Audits of embedded models and the budgets of embedded files.

use ratty::budgets::{
    checked_enforce_object_budgets, enforce_object_budgets, enforce_sound_budgets, AssetFile,
};
use ratty::glb::{audit_glb, checked_audit_glb, enforce_glb_caps, read_u32_le, GlbAudit};

const JSON: u32 = 0x4E4F_534A;
const BIN: u32 = 0x004E_4942;

fn container(chunks: &[(u32, &[u8])]) -> Vec<u8> {
    let mut body = Vec::new();
    for (kind, data) in chunks {
        let fill = if *kind == JSON { b' ' } else { 0 };
        let mut data = data.to_vec();
        while data.len() % 4 != 0 {
            data.push(fill);
        }
        body.extend_from_slice(&(data.len() as u32).to_le_bytes());
        body.extend_from_slice(&kind.to_le_bytes());
        body.extend_from_slice(&data);
    }
    let mut bytes = b"glTF".to_vec();
    bytes.extend_from_slice(&2_u32.to_le_bytes());
    bytes.extend_from_slice(&(12 + body.len() as u32).to_le_bytes());
    bytes.extend_from_slice(&body);
    bytes
}

fn png(width: u32, height: u32) -> Vec<u8> {
    let mut bytes = vec![0x89, b'P', b'N', b'G', 0x0D, 0x0A, 0x1A, 0x0A];
    bytes.extend_from_slice(&[0, 0, 0, 13, b'I', b'H', b'D', b'R']);
    bytes.extend_from_slice(&width.to_be_bytes());
    bytes.extend_from_slice(&height.to_be_bytes());
    bytes
}

fn audited(json: &str, bin: &[u8]) -> Result<GlbAudit, String> {
    checked_audit_glb(&container(&[(JSON, json.as_bytes()), (BIN, bin)])).expect("counts fit")
}

fn refusal(json: &str) -> String {
    audited(json, &[]).expect_err("refused")
}

#[test]
fn a_whole_model_is_counted() {
    let image = png(64, 32);
    let json = "{\"accessors\":[{\"count\":30},{\"count\":7}],\
        \"meshes\":[{\"primitives\":[{\"indices\":0},{\"attributes\":{\"POSITION\":1}}]}],\
        \"materials\":[{},{}],\
        \"bufferViews\":[{\"byteLength\":24}],\
        \"images\":[{\"mimeType\":\"image/png\",\"bufferView\":0}]}";
    let audit = audited(json, &image).expect("a clean model");
    assert_eq!(audit.triangles, 12);
    assert_eq!(audit.materials, 2);
    assert_eq!(audit.images, vec![(64, 32)]);
    assert_eq!(audit.bin_bytes, 24);
    assert_eq!(audit.decoded_estimate_bytes, 24 + 64 * 32 * 4);
    assert!(enforce_glb_caps(&audit).is_ok());
    let whole = container(&[(JSON, json.as_bytes()), (BIN, &image)]);
    assert!(audit_glb(&whole).is_ok());
}

#[test]
fn broken_containers_are_refused() {
    let refused = |bytes: &[u8]| {
        checked_audit_glb(bytes).expect("counts fit").expect_err("refused")
    };
    assert_eq!(refused(b"glTF"), "file is shorter than the 12-byte GLB header");
    assert_eq!(refused(b"notaglTFfile"), "magic is not 'glTF'");
    let mut other_version = container(&[(JSON, b"{}")]);
    other_version[4] = 1;
    assert_eq!(refused(&other_version), "container version is 1, not 2");
    let mut long = container(&[(JSON, b"{}")]);
    long.push(0);
    assert_eq!(refused(&long), "declared length 24 does not match file length 25");
    assert_eq!(refused(&container(&[])), "no JSON chunk");
    assert_eq!(refused(&container(&[(BIN, b""), (JSON, b"{}")])),
        "JSON chunk appears after the BIN chunk");
    assert_eq!(refused(&container(&[(JSON, b"{}"), (JSON, b"{}")])), "more than one JSON chunk");
    assert_eq!(
        refused(&container(&[(JSON, b"{}"), (BIN, b""), (BIN, b"")])),
        "more than one BIN chunk"
    );
    assert_eq!(refused(&container(&[(7, b"")])), "unknown chunk type 0x00000007");
    let mut overrun = container(&[(JSON, b"{}")]);
    overrun[12] = 200;
    assert_eq!(refused(&overrun), "chunk at byte 12 overruns the file");
    let mut cut = container(&[(JSON, b"{}")]);
    cut.extend_from_slice(&[0, 0]);
    cut[8] = 26;
    assert_eq!(refused(&cut), "truncated at byte 24");
    assert!(refused(&container(&[(JSON, b"{")])).starts_with("JSON chunk does not parse: "));
}

#[test]
fn models_that_need_other_files_or_extensions_are_refused() {
    assert!(refusal("{\"extensionsRequired\":[\"A\",\"B\"]}")
        .starts_with("extensionsRequired lists [A, B]; "));
    assert_eq!(
        refusal("{\"buffers\":[{},{\"uri\":\"x.bin\"}]}"),
        "buffers[1] references external uri 'x.bin'; embedded scene assets must be self-contained"
    );
    assert_eq!(
        refusal("{\"images\":[{\"uri\":\"x.png\"}]}"),
        "images[0] references external uri 'x.png'; embedded scene assets must be self-contained"
    );
}

#[test]
fn meshes_and_images_that_cannot_be_counted_are_refused() {
    assert_eq!(
        refusal("{\"meshes\":[{\"primitives\":[{\"mode\":1}]}]}"),
        "meshes[0].primitives[0] uses mode 1; only TRIANGLES (4) is budgeted"
    );
    assert_eq!(
        refusal("{\"meshes\":[{},{\"primitives\":[{}]}]}"),
        "meshes[1].primitives[0] has neither indices nor a POSITION attribute"
    );
    assert_eq!(
        refusal("{\"meshes\":[{\"primitives\":[{\"indices\":3}]}]}"),
        "accessor 3 is missing or has no count"
    );
    assert!(refusal("{\"images\":[{\"mimeType\":\"image/jpeg\"}]}")
        .starts_with("images[0] mimeType is 'image/jpeg'; only image/png decodes"));
    assert_eq!(
        refusal("{\"images\":[{\"mimeType\":\"image/png\"}]}"),
        "images[0] has no bufferView"
    );
    assert_eq!(
        refusal("{\"images\":[{\"mimeType\":\"image/png\",\"bufferView\":2}]}"),
        "images[0] bufferView 2 is missing"
    );
    assert_eq!(
        refusal(
            "{\"bufferViews\":[{}],\"images\":[{\"mimeType\":\"image/png\",\"bufferView\":0}]}"
        ),
        "bufferViews[0] has no byteLength"
    );
    let viewed = "{\"bufferViews\":[{\"byteLength\":24}],\
        \"images\":[{\"mimeType\":\"image/png\",\"bufferView\":0}]}";
    assert_eq!(refusal(viewed), "images[0] bufferView overruns the BIN chunk");
    assert_eq!(
        audited(viewed, &[0; 24]).expect_err("refused"),
        "images[0] bytes are not a PNG"
    );
}

#[test]
fn counts_beyond_the_machine_are_told_apart() {
    let json = "{\"accessors\":[{\"count\":18446744073709551615}],\"meshes\":[{\"primitives\":[\
        {\"indices\":0},{\"indices\":0},{\"indices\":0},{\"indices\":0}]}]}";
    assert!(checked_audit_glb(&container(&[(JSON, json.as_bytes())])).is_none());
}

fn audit() -> GlbAudit {
    GlbAudit {
        triangles: 5_000,
        materials: 8,
        images: vec![(2048, 2048)],
        bin_bytes: 4,
        decoded_estimate_bytes: 20 * 1024 * 1024,
    }
}

#[test]
fn every_budget_is_enforced_at_its_edge() {
    assert!(enforce_glb_caps(&audit()).is_ok());
    let over = |audit: GlbAudit| enforce_glb_caps(&audit).expect_err("over budget");
    assert_eq!(
        over(GlbAudit { triangles: 5_001, ..audit() }),
        "5001 triangles, over the 5000-triangle budget; simplify the meshes and re-export"
    );
    assert_eq!(
        over(GlbAudit { materials: 9, ..audit() }),
        "9 materials, over the 8-material budget; merge materials and re-export"
    );
    assert_eq!(
        over(GlbAudit { images: vec![(1, 1); 5], ..audit() }),
        "5 embedded images, over the 4-image budget; merge or drop textures and re-export"
    );
    assert_eq!(
        over(GlbAudit { images: vec![(1, 1), (1, 2049)], ..audit() }),
        "images[1] is 1x2049, over the 2048 per-side budget; scale the texture down and re-export"
    );
    assert_eq!(
        over(GlbAudit { decoded_estimate_bytes: 20 * 1024 * 1024 + 1, ..audit() }),
        "decoded-runtime estimate is 20971521 bytes (BIN + RGBA8 textures), over the \
         20971520-byte budget; shrink the textures or the meshes and re-export"
    );
}

#[test]
fn little_endian_words_are_read() {
    assert_eq!(read_u32_le(&[9, 1, 2, 3, 4], 1), Ok(0x0403_0201));
    assert_eq!(read_u32_le(&[9, 1, 2, 3], 1), Err("truncated at byte 1".to_string()));
}

fn file(path: &str, len: u64) -> AssetFile {
    AssetFile {
        path: path.to_string(),
        len,
        extension: path.rsplit('.').next().unwrap_or_default().to_string(),
        bytes: Vec::new(),
    }
}

#[test]
fn sounds_stay_within_their_budgets() {
    assert_eq!(enforce_sound_budgets(&vec![file("a.ogg", 192 * 1024)]), Ok(()));
    assert_eq!(
        enforce_sound_budgets(&vec![file("a.ogg", 192 * 1024 + 1)]),
        Err("sound asset budget breached: a.ogg is 196609 bytes, over the 196608-byte \
             per-asset budget"
            .to_string())
    );
    let many: Vec<AssetFile> = (0..3).map(|_| file("a.ogg", 192 * 1024)).collect();
    assert_eq!(
        enforce_sound_budgets(&many),
        Err("sound package budget breached: assets/sounds/ totals 589824 bytes, over the \
             524288-byte package budget"
            .to_string())
    );
}

fn model(path: &str, json: &str) -> AssetFile {
    let bytes = container(&[(JSON, json.as_bytes())]);
    AssetFile { len: bytes.len() as u64, bytes, ..file(path, 0) }
}

#[test]
fn objects_stay_within_their_budgets() {
    let clean = model("m.GLB", "{}");
    let files = vec![clean, file("m.obj", 2 * 1024 * 1024)];
    assert_eq!(enforce_object_budgets(&files), Ok(()));
    assert_eq!(checked_enforce_object_budgets(&files), Some(Ok(())));
    assert_eq!(
        enforce_object_budgets(&vec![file("m.obj", 2 * 1024 * 1024 + 1)]),
        Err("object asset budget breached: m.obj is 2097153 bytes, over the 2097152-byte \
             per-asset budget"
            .to_string())
    );
    assert_eq!(
        enforce_object_budgets(&vec![file("m.gltf", 10)]),
        Err("GLB audit failed: m.gltf: embedded scene assets must be self-contained .glb \
             (a .gltf references external files)"
            .to_string())
    );
    let broken = AssetFile { bytes: container(&[]), ..file("m.glb", 10) };
    assert_eq!(
        enforce_object_budgets(&vec![broken]),
        Err("GLB audit failed: m.glb: no JSON chunk".to_string())
    );
    let heavy = model(
        "m.glb",
        "{\"accessors\":[{\"count\":27000}],\"meshes\":[{\"primitives\":[{\"indices\":0}]}]}",
    );
    assert_eq!(
        enforce_object_budgets(&vec![heavy]),
        Err("GLB audit failed: m.glb: 9000 triangles, over the 5000-triangle budget; simplify \
             the meshes and re-export"
            .to_string())
    );
    // A model that cannot be counted, and one behind a refusal.
    let uncountable = || {
        model(
            "m.glb",
            "{\"accessors\":[{\"count\":18446744073709551615}],\"meshes\":[{\"primitives\":[\
             {\"indices\":0},{\"indices\":0},{\"indices\":0},{\"indices\":0}]}]}",
        )
    };
    assert_eq!(checked_enforce_object_budgets(&vec![uncountable()]), None);
    assert!(matches!(
        checked_enforce_object_budgets(&vec![file("m.gltf", 10), uncountable()]),
        Some(Err(_))
    ));
    let many: Vec<AssetFile> = (0..3).map(|_| file("m.obj", 2 * 1024 * 1024)).collect();
    assert_eq!(
        enforce_object_budgets(&many),
        Err("object package budget breached: assets/objects/ totals 6291456 bytes, over the \
             4194304-byte package budget"
            .to_string())
    );
}
