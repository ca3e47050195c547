//! The budgets of the embedded assets: how large one may be, and all together.

use vstd::prelude::*;
use crate::glb::{
    checked_audit_glb, countable, enforce_glb_caps, glb_audited, over_budget, AuditView,
    OBJECT_ASSET_BUDGET_BYTES, OBJECT_PACKAGE_BUDGET_BYTES,
};
use crate::text::{chars_of, decimal, decimal_text, lowered, lowered_chars, reads};

verus! {

/// Upper bound, in bytes, on one embedded sound.
pub const SOUND_ASSET_BUDGET_BYTES: u64 = 196_608;

/// Upper bound, in bytes, on all embedded sounds.
pub const SOUND_PACKAGE_BUDGET_BYTES: u64 = 524_288;

/// An asset's file.
#[derive(Debug)]
pub struct AssetFile {
    /// Where it is.
    pub path: String,
    /// How many bytes it holds.
    pub len: u64,
    /// What its name ends in.
    pub extension: String,
    /// The bytes; they count of a binary model that is not too large.
    pub bytes: Vec<u8>,
}

/// The bytes of files.
pub open spec fn total_len(files: Seq<AssetFile>) -> nat
    decreases files.len(),
{
    if files.len() == 0 {
        0
    } else {
        total_len(files.drop_last()) + files.last().len as nat
    }
}

/// The sentence for a sound that is too large.
pub open spec fn large_sound(path: Seq<char>, len: nat) -> Seq<char> {
    "sound asset budget breached: "@ + path + " is "@ + decimal(len)
        + " bytes, over the 196608-byte per-asset budget"@
}

/// The sentence for too much sound.
pub open spec fn large_sounds(total: nat) -> Seq<char> {
    "sound package budget breached: assets/sounds/ totals "@ + decimal(total)
        + " bytes, over the 524288-byte package budget"@
}

/// What is wrong with the first sounds, if anything: the first that is too
/// large.
pub open spec fn sound_refusal(files: Seq<AssetFile>) -> Option<Seq<char>>
    decreases files.len(),
{
    if files.len() == 0 {
        None
    } else {
        match sound_refusal(files.drop_last()) {
            Some(message) => Some(message),
            None => if files.last().len > SOUND_ASSET_BUDGET_BYTES {
                Some(large_sound(files.last().path@, files.last().len as nat))
            } else {
                None
            },
        }
    }
}

/// What is wrong with the sounds, if anything: one is too large, or all
/// together are.
pub open spec fn sounds_refusal(files: Seq<AssetFile>) -> Option<Seq<char>> {
    match sound_refusal(files) {
        Some(message) => Some(message),
        None => if total_len(files) > SOUND_PACKAGE_BUDGET_BYTES {
            Some(large_sounds(total_len(files)))
        } else {
            None
        },
    }
}

/// Whether a check says what is wrong, if anything.
pub open spec fn checked(result: Result<(), String>, refusal: Option<Seq<char>>) -> bool {
    match result {
        Ok(_) => refusal is None,
        Err(message) => refusal == Some(message@),
    }
}

proof fn lemma_first_refusal(files: Seq<AssetFile>, upto: int)
    requires
        0 <= upto <= files.len(),
    ensures
        sound_refusal(files.take(upto)) is Some ==> sound_refusal(files) == sound_refusal(
            files.take(upto),
        ),
        object_refusal(files.take(upto)) is Some ==> object_refusal(files) == object_refusal(
            files.take(upto),
        ),
    decreases files.len() - upto,
{
    if upto == files.len() {
        assert(files.take(upto) =~= files);
    } else {
        assert(files.take(upto + 1).drop_last() =~= files.take(upto));
        lemma_first_refusal(files, upto + 1);
    }
}

proof fn lemma_part_of_total(files: Seq<AssetFile>, upto: int)
    requires
        0 <= upto <= files.len(),
    ensures
        total_len(files.take(upto)) <= total_len(files),
    decreases files.len() - upto,
{
    if upto == files.len() {
        assert(files.take(upto) =~= files);
    } else {
        assert(files.take(upto + 1).drop_last() =~= files.take(upto));
        lemma_part_of_total(files, upto + 1);
    }
}

/// Holds the sounds against their budgets.
pub fn enforce_sound_budgets(files: &Vec<AssetFile>) -> (result: Result<(), String>)
    requires
        total_len(files@) <= u64::MAX,
    ensures
        checked(result, sounds_refusal(files@)),
{
    let mut total: u64 = 0;
    let mut i: usize = 0;
    assert(files@.take(0) =~= Seq::empty());
    while i < files.len()
        invariant
            i <= files@.len(),
            total_len(files@) <= u64::MAX,
            total == total_len(files@.take(i as int)),
            sound_refusal(files@.take(i as int)) is None,
        decreases files.len() - i,
    {
        let file = &files[i];
        proof {
            assert(files@.take(i + 1).drop_last() =~= files@.take(i as int));
            assert(files@.take(i + 1).last() == files@[i as int]);
            lemma_part_of_total(files@, i + 1);
        }
        if file.len > SOUND_ASSET_BUDGET_BYTES {
            let mut message = "sound asset budget breached: ".to_owned();
            message.append(&file.path);
            message.append(" is ");
            message.append(&decimal_text(file.len));
            message.append(" bytes, over the 196608-byte per-asset budget");
            proof {
                lemma_first_refusal(files@, i + 1);
            }
            return Err(message);
        }
        total = total + file.len;
        i += 1;
    }
    assert(files@.take(i as int) =~= files@);
    if total > SOUND_PACKAGE_BUDGET_BYTES {
        let mut message = "sound package budget breached: assets/sounds/ totals ".to_owned();
        message.append(&decimal_text(total));
        message.append(" bytes, over the 524288-byte package budget");
        return Err(message);
    }
    Ok(())
}

/// The sentence for a model that is too large.
pub open spec fn large_object(path: Seq<char>, len: nat) -> Seq<char> {
    "object asset budget breached: "@ + path + " is "@ + decimal(len)
        + " bytes, over the 2097152-byte per-asset budget"@
}

/// The sentence for too many models.
pub open spec fn large_objects(total: nat) -> Seq<char> {
    "object package budget breached: assets/objects/ totals "@ + decimal(total)
        + " bytes, over the 4194304-byte package budget"@
}

/// The sentence for a model that fails its audit.
pub open spec fn failed_audit(path: Seq<char>, message: Seq<char>) -> Seq<char> {
    "GLB audit failed: "@ + path + ": "@ + message
}

/// Why an audit fails a model, if so: it is refused, or over a budget.
pub open spec fn audit_refusal(result: Result<AuditView, Seq<char>>) -> Option<Seq<char>> {
    match result {
        Err(message) => Some(message),
        Ok(audit) => over_budget(audit),
    }
}

/// What is wrong with a model's file, if anything: it is too large, it is of
/// the kind that refers to other files, or it fails its audit.
pub open spec fn file_refusal(file: AssetFile) -> Option<Seq<char>> {
    if file.len > OBJECT_ASSET_BUDGET_BYTES {
        Some(large_object(file.path@, file.len as nat))
    } else if lowered(file.extension@) == "gltf"@ {
        Some(
            failed_audit(
                file.path@,
                "embedded scene assets must be self-contained .glb (a .gltf references external files)"@,
            ),
        )
    } else if lowered(file.extension@) == "glb"@ {
        match audit_refusal(glb_audited(file.bytes@)) {
            Some(message) => Some(failed_audit(file.path@, message)),
            None => None,
        }
    } else {
        None
    }
}

/// Whether a file's bytes are audited: those of a binary model that is not too
/// large.
pub open spec fn is_audited(file: AssetFile) -> bool {
    file.len <= OBJECT_ASSET_BUDGET_BYTES && lowered(file.extension@) == "glb"@
}

/// Whether every model that is audited can be counted. What comes behind the
/// first refusal is not audited.
pub open spec fn auditable(files: Seq<AssetFile>) -> bool {
    forall|i: int|
        0 <= i < files.len() && object_refusal(files.take(i)) is None && is_audited(
            #[trigger] files[i],
        ) ==> countable(glb_audited(files[i].bytes@))
}

/// What is wrong with the first models, if anything: the first that is
/// refused.
pub open spec fn object_refusal(files: Seq<AssetFile>) -> Option<Seq<char>>
    decreases files.len(),
{
    if files.len() == 0 {
        None
    } else {
        match object_refusal(files.drop_last()) {
            Some(message) => Some(message),
            None => file_refusal(files.last()),
        }
    }
}

/// What is wrong with the models, if anything: one is refused, or all together
/// are too large.
pub open spec fn objects_refusal(files: Seq<AssetFile>) -> Option<Seq<char>> {
    match object_refusal(files) {
        Some(message) => Some(message),
        None => if total_len(files) > OBJECT_PACKAGE_BUDGET_BYTES {
            Some(large_objects(total_len(files)))
        } else {
            None
        },
    }
}

fn audit_message(path: &str, reason: &str) -> (message: String)
    ensures
        message@ == failed_audit(path@, reason@),
{
    let mut message = "GLB audit failed: ".to_owned();
    message.append(path);
    message.append(": ");
    message.append(reason);
    message
}

fn check_file(file: &AssetFile) -> (verdict: Option<Result<(), String>>)
    ensures
        match verdict {
            Some(result) => {
                &&& is_audited(*file) ==> countable(glb_audited(file.bytes@))
                &&& checked(result, file_refusal(*file))
            },
            None => is_audited(*file) && !countable(glb_audited(file.bytes@)),
        },
{
    if file.len > OBJECT_ASSET_BUDGET_BYTES {
        let mut message = "object asset budget breached: ".to_owned();
        message.append(&file.path);
        message.append(" is ");
        message.append(&decimal_text(file.len));
        message.append(" bytes, over the 2097152-byte per-asset budget");
        return Some(Err(message));
    }
    let extension = lowered_chars(&chars_of(&file.extension));
    if reads(&extension, "gltf") {
        proof {
            reveal_strlit("gltf");
            reveal_strlit("glb");
            assert("gltf"@.len() == 4 && "glb"@.len() == 3);
        }
        return Some(
            Err(
                audit_message(
                    &file.path,
                    "embedded scene assets must be self-contained .glb (a .gltf references external files)",
                ),
            ),
        );
    }
    if reads(&extension, "glb") {
        match checked_audit_glb(file.bytes.as_slice()) {
            None => {
                return None;
            },
            Some(Err(message)) => {
                return Some(Err(audit_message(&file.path, &message)));
            },
            Some(Ok(audit)) => {
                if let Err(message) = enforce_glb_caps(&audit) {
                    return Some(Err(audit_message(&file.path, &message)));
                }
            },
        }
    }
    Some(Ok(()))
}

fn check_objects(files: &Vec<AssetFile>) -> (verdict: Option<Result<(), String>>)
    requires
        total_len(files@) <= u64::MAX,
    ensures
        match verdict {
            Some(result) => auditable(files@) && checked(result, objects_refusal(files@)),
            None => !auditable(files@),
        },
{
    let mut total: u64 = 0;
    let mut i: usize = 0;
    assert(files@.take(0) =~= Seq::empty());
    while i < files.len()
        invariant
            i <= files@.len(),
            total_len(files@) <= u64::MAX,
            total == total_len(files@.take(i as int)),
            object_refusal(files@.take(i as int)) is None,
            forall|j: int|
                0 <= j < i && is_audited(#[trigger] files@[j]) ==> countable(
                    glb_audited(files@[j].bytes@),
                ),
        decreases files.len() - i,
    {
        proof {
            assert(files@.take(i + 1).drop_last() =~= files@.take(i as int));
            assert(files@.take(i + 1).last() == files@[i as int]);
            lemma_part_of_total(files@, i + 1);
        }
        match check_file(&files[i]) {
            None => {
                return None;
            },
            Some(Err(message)) => {
                proof {
                    lemma_first_refusal(files@, i + 1);
                    assert forall|j: int|
                        0 <= j < files@.len() && object_refusal(files@.take(j)) is None
                            && is_audited(#[trigger] files@[j]) implies countable(
                        glb_audited(files@[j].bytes@),
                    ) by {
                        if j > i {
                            lemma_first_refusal(files@.take(j), i + 1);
                            assert(files@.take(j).take(i + 1) =~= files@.take(i + 1));
                        }
                    }
                }
                return Some(Err(message));
            },
            Some(Ok(_)) => {},
        }
        total = total + files[i].len;
        i += 1;
    }
    assert(files@.take(i as int) =~= files@);
    if total > OBJECT_PACKAGE_BUDGET_BYTES {
        let mut message = "object package budget breached: assets/objects/ totals ".to_owned();
        message.append(&decimal_text(total));
        message.append(" bytes, over the 4194304-byte package budget");
        return Some(Err(message));
    }
    Some(Ok(()))
}

/// Holds the models against their budgets, and audits the binary ones.
pub fn enforce_object_budgets(files: &Vec<AssetFile>) -> (result: Result<(), String>)
    requires
        total_len(files@) <= u64::MAX,
        auditable(files@),
    ensures
        checked(result, objects_refusal(files@)),
{
    match check_objects(files) {
        Some(result) => result,
        None => {
            assert(false);
            Err(String::new())
        },
    }
}

/// Holds the models against their budgets; none where one that is audited
/// cannot be counted.
pub fn checked_enforce_object_budgets(files: &Vec<AssetFile>) -> (outcome: Option<
    Result<(), String>,
>)
    requires
        total_len(files@) <= u64::MAX,
    ensures
        outcome is None <==> !auditable(files@),
        outcome matches Some(result) ==> checked(result, objects_refusal(files@)),
{
    match check_objects(files) {
        Some(_) => Some(enforce_object_budgets(files)),
        None => None,
    }
}

/// The sounds are within their budgets exactly if none is over 192 KiB and all
/// together are not over 512 KiB.
pub proof fn law_sound_budgets(files: Seq<AssetFile>)
    ensures
        sounds_refusal(files) is None <==> (forall|i: int|
            0 <= i < files.len() ==> (#[trigger] files[i]).len <= 192 * 1024) && total_len(files)
            <= 512 * 1024,
{
    lemma_sounds_small(files);
}

proof fn lemma_sounds_small(files: Seq<AssetFile>)
    ensures
        sound_refusal(files) is None <==> forall|i: int|
            0 <= i < files.len() ==> (#[trigger] files[i]).len <= 192 * 1024,
    decreases files.len(),
{
    if files.len() > 0 {
        let front = files.drop_last();
        lemma_sounds_small(front);
        assert forall|i: int| 0 <= i < front.len() implies #[trigger] files[i] == front[i] by {}
        assert(files[files.len() - 1] == files.last());
        if forall|i: int| 0 <= i < files.len() ==> (#[trigger] files[i]).len <= 192 * 1024 {
            assert forall|i: int| 0 <= i < front.len() implies (#[trigger] front[i]).len <= 192
                * 1024 by {
                assert(files[i].len <= 192 * 1024);
            }
        }
    }
}

/// The models are within their budgets exactly if each is and all together are
/// not over 4 MiB. One is if it is not over 2 MiB, does not refer to other
/// files, and passes its audit if it is a binary one.
pub proof fn law_object_budgets(files: Seq<AssetFile>)
    ensures
        objects_refusal(files) is None <==> (forall|i: int|
            0 <= i < files.len() ==> is_fine(#[trigger] files[i])) && total_len(files) <= 4 * 1024
            * 1024,
{
    lemma_objects_fine(files);
}

/// Whether a model's file is in order by itself.
pub open spec fn is_fine(file: AssetFile) -> bool {
    &&& file.len <= 2 * 1024 * 1024
    &&& lowered(file.extension@) != "gltf"@
    &&& lowered(file.extension@) == "glb"@ ==> (glb_audited(file.bytes@) matches Ok(audit)
        && over_budget(audit) is None)
}

proof fn lemma_objects_fine(files: Seq<AssetFile>)
    ensures
        object_refusal(files) is None <==> forall|i: int|
            0 <= i < files.len() ==> is_fine(#[trigger] files[i]),
    decreases files.len(),
{
    if files.len() > 0 {
        let front = files.drop_last();
        lemma_objects_fine(front);
        assert forall|i: int| 0 <= i < front.len() implies #[trigger] files[i] == front[i] by {}
        assert(files[files.len() - 1] == files.last());
        assert(file_refusal(files.last()) is None <==> is_fine(files.last()));
        if forall|i: int| 0 <= i < files.len() ==> is_fine(#[trigger] files[i]) {
            assert forall|i: int| 0 <= i < front.len() implies is_fine(#[trigger] front[i]) by {
                assert(is_fine(files[i]));
            }
            assert(is_fine(files[files.len() - 1]));
        }
    }
}

/// Files add up.
pub proof fn law_files_add_up(files: Seq<AssetFile>, file: AssetFile)
    ensures
        total_len(Seq::empty()) == 0,
        total_len(files.push(file)) == total_len(files) + file.len,
{
    assert(files.push(file).drop_last() =~= files);
}

/// The first sound that is over its budget is named with its path and its size;
/// where each is within its own, their sum is.
pub proof fn law_sound_refusals_name_the_file(files: Seq<AssetFile>, at: int)
    ensures
        0 <= at < files.len() && files[at].len > 196608 && (forall|i: int|
            0 <= i < at ==> (#[trigger] files[i]).len <= 196608) ==> sounds_refusal(files) == Some(
            "sound asset budget breached: "@ + files[at].path@ + " is "@ + decimal(
                files[at].len as nat,
            ) + " bytes, over the 196608-byte per-asset budget"@,
        ),
        (forall|i: int| 0 <= i < files.len() ==> (#[trigger] files[i]).len <= 196608) && total_len(
            files,
        ) > 524288 ==> sounds_refusal(files) == Some(
            "sound package budget breached: assets/sounds/ totals "@ + decimal(total_len(files))
                + " bytes, over the 524288-byte package budget"@,
        ),
{
    if 0 <= at < files.len() && files[at].len > 196608 && (forall|i: int|
        0 <= i < at ==> (#[trigger] files[i]).len <= 196608) {
        let front = files.take(at);
        lemma_sounds_small(front);
        assert forall|i: int| 0 <= i < front.len() implies (#[trigger] front[i]).len <= 192
            * 1024 by {
            assert(files[i].len <= 196608);
        }
        assert(files.take(at + 1).drop_last() =~= front);
        lemma_first_refusal(files, at + 1);
    }
    lemma_sounds_small(files);
}

/// The first model that is not in order is named with its path: its size if it
/// is too large, else what its audit found.
pub proof fn law_object_refusals_name_the_file(files: Seq<AssetFile>, at: int)
    ensures
        0 <= at < files.len() && (forall|i: int| 0 <= i < at ==> is_fine(#[trigger] files[i])) ==> {
            let file = files[at];
            &&& file.len > 2097152 ==> objects_refusal(files) == Some(
                "object asset budget breached: "@ + file.path@ + " is "@ + decimal(file.len as nat)
                    + " bytes, over the 2097152-byte per-asset budget"@,
            )
            &&& file.len <= 2097152 && lowered(file.extension@) == "glb"@ ==> (glb_audited(
                file.bytes@,
            ) matches Err(message) ==> objects_refusal(files) == Some(
                "GLB audit failed: "@ + file.path@ + ": "@ + message,
            )) && (glb_audited(file.bytes@) matches Ok(audit) ==> (over_budget(audit) matches Some(
                message,
            ) ==> objects_refusal(files) == Some(
                "GLB audit failed: "@ + file.path@ + ": "@ + message,
            )))
        },
        (forall|i: int| 0 <= i < files.len() ==> is_fine(#[trigger] files[i])) && total_len(files)
            > 4194304 ==> objects_refusal(files) == Some(
            "object package budget breached: assets/objects/ totals "@ + decimal(total_len(files))
                + " bytes, over the 4194304-byte package budget"@,
        ),
{
    lemma_objects_fine(files);
    if 0 <= at < files.len() && (forall|i: int| 0 <= i < at ==> is_fine(#[trigger] files[i])) {
        let front = files.take(at);
        lemma_objects_fine(front);
        assert forall|i: int| 0 <= i < front.len() implies is_fine(#[trigger] front[i]) by {
            assert(is_fine(files[i]));
        }
        assert(files.take(at + 1).drop_last() =~= front);
        assert(files.take(at + 1).last() == files[at]);
        lemma_first_refusal(files, at + 1);
        reveal_strlit("gltf");
        reveal_strlit("glb");
        assert("gltf"@.len() == 4 && "glb"@.len() == 3);
    }
}

/// A check fails exactly where something is wrong, and says what.
pub proof fn law_checks_say_what_is_wrong(result: Result<(), String>, refusal: Option<Seq<char>>)
    requires
        checked(result, refusal),
    ensures
        result is Ok <==> refusal is None,
        result matches Err(message) ==> refusal == Some(message@),
{
}

/// What is audited: binary models that are not over 2 MiB, as far as the first
/// refusal.
pub proof fn law_what_is_audited(file: AssetFile)
    ensures
        is_audited(file) <==> file.len <= 2 * 1024 * 1024 && lowered(file.extension@) == "glb"@,
{
}

} // verus!
