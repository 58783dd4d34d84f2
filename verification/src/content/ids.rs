//! New names for recorded files.
use vstd::prelude::*;

use crate::text::concat2;

verus! {

/// Whether `c` is a digit of a number written to base sixteen in lower case.
pub open spec fn is_lower_hex(c: char) -> bool {
    '0' <= c <= '9' || 'a' <= c <= 'f'
}

/// Whether `s` is a random UUID as it is usually written.
pub open spec fn is_random_uuid(s: Seq<char>) -> bool {
    &&& s.len() == 36
    &&& forall|i: int|
        0 <= i < 36 ==> if i == 8 || i == 13 || i == 18 || i == 23 {
            #[trigger] s[i] == '-'
        } else {
            is_lower_hex(s[i])
        }
    &&& s[14] == '4'
    &&& s[19] == '8' || s[19] == '9' || s[19] == 'a' || s[19] == 'b'
}

/// `uuid::Uuid::new_v4` and its `Display`: a random UUID of version four, in
/// groups of lower-case digits with hyphens between them. Which one it is rests
/// on chance, and nothing is said of it.
#[verifier::external_body]
fn random_uuid() -> (r: String)
    ensures
        is_random_uuid(r@),
{
    uuid::Uuid::new_v4().to_string()
}

/// Whether `s` names a recorded file.
pub open spec fn is_file_id(s: Seq<char>) -> bool {
    exists|uuid: Seq<char>| #[trigger] is_random_uuid(uuid) && s == "instance-file:"@ + uuid
}

/// A new name for a recorded file.
pub fn instance_file_id() -> (r: String)
    ensures
        is_file_id(r@),
{
    let uuid = random_uuid();
    assert(is_random_uuid(uuid@));
    concat2("instance-file:", uuid.as_str())
}

/// The name of a file is told by its prefix, and what follows has the form of a random
/// identifier: groups of lower case hexadecimal digits between dashes.
pub proof fn law_how_files_are_named(id: Seq<char>)
    requires
        is_file_id(id),
    ensures
        id.len() == 50,
        id.take(14) == "instance-file:"@,
        id[22] == '-' && id[27] == '-' && id[32] == '-' && id[37] == '-',
        id[28] == '4',
        id[33] == '8' || id[33] == '9' || id[33] == 'a' || id[33] == 'b',
        forall|i: int|
            14 <= i < 50 && i != 22 && i != 27 && i != 32 && i != 37 ==> '0' <= (#[trigger] id[i])
                <= '9' || 'a' <= id[i] <= 'f',
{
    reveal_strlit("instance-file:");
    let uuid = choose|uuid: Seq<char>| #[trigger]
        is_random_uuid(uuid) && id == "instance-file:"@ + uuid;
    assert(id.take(14) =~= "instance-file:"@);
    assert forall|i: int| 14 <= i < 50 implies id[i] == uuid[i - 14] by {}
    assert(uuid[8] == '-' && uuid[13] == '-' && uuid[18] == '-' && uuid[23] == '-');
    assert forall|i: int|
        14 <= i < 50 && i != 22 && i != 27 && i != 32 && i != 37 implies '0' <= (#[trigger] id[i])
        <= '9' || 'a' <= id[i] <= 'f' by {
        assert(is_lower_hex(uuid[i - 14]));
    }
}

} // verus!
