//! Voice and role naming for the voice-chat study session: voice display
//! names and their character identifiers, and the dataflow node and config
//! file of each role.

use vstd::prelude::*;
use vstd::string::*;
use crate::text::str_eq;

verus! {

/// Available voice display names, in the order the voice selectors list them.
pub open spec fn voice_option_names() -> Seq<Seq<char>> {
    seq![
        "Zhao Daniu"@,
        "Chen Yifan"@,
        "Luo Xiang"@,
        "Doubao"@,
        "Yang Mi"@,
        "Ma Yun"@,
        "BYS"@,
        "Marc"@,
    ]
}

/// The voice character identifier of a display name (`doubao` for unknown names).
pub open spec fn display_to_id(d: Seq<char>) -> Seq<char> {
    if d == "Zhao Daniu"@ {
        "dnz"@
    } else if d == "Chen Yifan"@ {
        "yfc"@
    } else if d == "Luo Xiang"@ {
        "luoxiang"@
    } else if d == "Doubao"@ {
        "doubao"@
    } else if d == "Yang Mi"@ {
        "yangmi"@
    } else if d == "Ma Yun"@ {
        "mayun"@
    } else if d == "BYS"@ {
        "bys"@
    } else if d == "Marc"@ {
        "marc"@
    } else {
        "doubao"@
    }
}

/// The display name of a voice character identifier or one of its aliases
/// (`Doubao` for unknown identifiers).
pub open spec fn id_to_display(id: Seq<char>) -> Seq<char> {
    if id == "dnz"@ || id == "daniu"@ || id == "zhaodaniu"@ {
        "Zhao Daniu"@
    } else if id == "yfc"@ || id == "yifan"@ || id == "chenyifan"@ {
        "Chen Yifan"@
    } else if id == "luoxiang"@ || id == "luo"@ {
        "Luo Xiang"@
    } else if id == "doubao"@ || id == "default"@ {
        "Doubao"@
    } else if id == "yangmi"@ || id == "yang"@ {
        "Yang Mi"@
    } else if id == "mayun"@ || id == "ma"@ {
        "Ma Yun"@
    } else if id == "bys"@ {
        "BYS"@
    } else if id == "marc"@ || id == "fewshot"@ {
        "Marc"@
    } else {
        "Doubao"@
    }
}

/// Map display name to VOICE_CHARACTER ID (used in voices.json / YAML env).
pub fn voice_display_to_id(display_name: &str) -> (r: &'static str)
    ensures
        r@ == display_to_id(display_name@),
{
    if str_eq(display_name, "Zhao Daniu") {
        "dnz"
    } else if str_eq(display_name, "Chen Yifan") {
        "yfc"
    } else if str_eq(display_name, "Luo Xiang") {
        "luoxiang"
    } else if str_eq(display_name, "Doubao") {
        "doubao"
    } else if str_eq(display_name, "Yang Mi") {
        "yangmi"
    } else if str_eq(display_name, "Ma Yun") {
        "mayun"
    } else if str_eq(display_name, "BYS") {
        "bys"
    } else if str_eq(display_name, "Marc") {
        "marc"
    } else {
        "doubao"
    }
}

/// Map VOICE_CHARACTER ID to display name (for UI).
pub fn voice_id_to_display(id: &str) -> (r: &'static str)
    ensures
        r@ == id_to_display(id@),
{
    if str_eq(id, "dnz") || str_eq(id, "daniu") || str_eq(id, "zhaodaniu") {
        "Zhao Daniu"
    } else if str_eq(id, "yfc") || str_eq(id, "yifan") || str_eq(id, "chenyifan") {
        "Chen Yifan"
    } else if str_eq(id, "luoxiang") || str_eq(id, "luo") {
        "Luo Xiang"
    } else if str_eq(id, "doubao") || str_eq(id, "default") {
        "Doubao"
    } else if str_eq(id, "yangmi") || str_eq(id, "yang") {
        "Yang Mi"
    } else if str_eq(id, "mayun") || str_eq(id, "ma") {
        "Ma Yun"
    } else if str_eq(id, "bys") {
        "BYS"
    } else if str_eq(id, "marc") || str_eq(id, "fewshot") {
        "Marc"
    } else {
        "Doubao"
    }
}

/// Length and first character of every voice name, identifier and alias;
/// no two of the names, and no two of the identifiers, agree on both.
proof fn voice_literal_shapes()
    ensures
        "Zhao Daniu"@.len() == 10,
        "Zhao Daniu"@[0] == 'Z',
        "Chen Yifan"@.len() == 10,
        "Chen Yifan"@[0] == 'C',
        "Luo Xiang"@.len() == 9,
        "Luo Xiang"@[0] == 'L',
        "Doubao"@.len() == 6,
        "Doubao"@[0] == 'D',
        "Yang Mi"@.len() == 7,
        "Yang Mi"@[0] == 'Y',
        "Ma Yun"@.len() == 6,
        "Ma Yun"@[0] == 'M',
        "BYS"@.len() == 3,
        "BYS"@[0] == 'B',
        "Marc"@.len() == 4,
        "Marc"@[0] == 'M',
        "dnz"@.len() == 3,
        "dnz"@[0] == 'd',
        "daniu"@.len() == 5,
        "daniu"@[0] == 'd',
        "zhaodaniu"@.len() == 9,
        "zhaodaniu"@[0] == 'z',
        "yfc"@.len() == 3,
        "yfc"@[0] == 'y',
        "yifan"@.len() == 5,
        "yifan"@[0] == 'y',
        "chenyifan"@.len() == 9,
        "chenyifan"@[0] == 'c',
        "luoxiang"@.len() == 8,
        "luoxiang"@[0] == 'l',
        "luo"@.len() == 3,
        "luo"@[0] == 'l',
        "doubao"@.len() == 6,
        "doubao"@[0] == 'd',
        "default"@.len() == 7,
        "default"@[0] == 'd',
        "yangmi"@.len() == 6,
        "yangmi"@[0] == 'y',
        "yang"@.len() == 4,
        "yang"@[0] == 'y',
        "mayun"@.len() == 5,
        "mayun"@[0] == 'm',
        "ma"@.len() == 2,
        "ma"@[0] == 'm',
        "bys"@.len() == 3,
        "bys"@[0] == 'b',
        "marc"@.len() == 4,
        "marc"@[0] == 'm',
        "fewshot"@.len() == 7,
        "fewshot"@[0] == 'f',
{
    reveal_strlit("Zhao Daniu");
    reveal_strlit("Chen Yifan");
    reveal_strlit("Luo Xiang");
    reveal_strlit("Doubao");
    reveal_strlit("Yang Mi");
    reveal_strlit("Ma Yun");
    reveal_strlit("BYS");
    reveal_strlit("Marc");
    reveal_strlit("dnz");
    reveal_strlit("daniu");
    reveal_strlit("zhaodaniu");
    reveal_strlit("yfc");
    reveal_strlit("yifan");
    reveal_strlit("chenyifan");
    reveal_strlit("luoxiang");
    reveal_strlit("luo");
    reveal_strlit("doubao");
    reveal_strlit("default");
    reveal_strlit("yangmi");
    reveal_strlit("yang");
    reveal_strlit("mayun");
    reveal_strlit("ma");
    reveal_strlit("bys");
    reveal_strlit("marc");
    reveal_strlit("fewshot");
}

/// The voice options are pairwise distinct, so a voice has one selector position.
pub proof fn lemma_voice_options_distinct(i: int, j: int)
    requires
        0 <= i < voice_option_names().len(),
        0 <= j < voice_option_names().len(),
        i != j,
    ensures
        voice_option_names()[i] != voice_option_names()[j],
{
    voice_literal_shapes();
}

/// Every voice option survives the trip to its character identifier and back.
pub proof fn lemma_voice_id_round_trip(i: int)
    requires
        0 <= i < voice_option_names().len(),
    ensures
        id_to_display(display_to_id(voice_option_names()[i])) == voice_option_names()[i],
{
    voice_literal_shapes();
}

/// Position of a voice in the selector list, or 0 (the first voice) when the
/// voice is not one of the options.
pub fn voice_option_index(voice: &str) -> (idx: usize)
    ensures
        idx < voice_option_names().len(),
        (exists|i: int| 0 <= i < voice_option_names().len() && voice_option_names()[i] == voice@)
            ==> voice_option_names()[idx as int] == voice@,
        forall|j: int| 0 <= j < idx ==> voice_option_names()[j] != voice@,
{
    if str_eq(voice, "Zhao Daniu") {
        0
    } else if str_eq(voice, "Chen Yifan") {
        1
    } else if str_eq(voice, "Luo Xiang") {
        2
    } else if str_eq(voice, "Doubao") {
        3
    } else if str_eq(voice, "Yang Mi") {
        4
    } else if str_eq(voice, "Ma Yun") {
        5
    } else if str_eq(voice, "BYS") {
        6
    } else if str_eq(voice, "Marc") {
        7
    } else {
        0
    }
}

/// The voice at a selector position, if the position names one.
pub fn voice_option_at(idx: usize) -> (r: Option<&'static str>)
    ensures
        match r {
            Some(s) => idx < voice_option_names().len() && s@ == voice_option_names()[idx as int],
            None => idx >= voice_option_names().len(),
        },
{
    match idx {
        0 => Some("Zhao Daniu"),
        1 => Some("Chen Yifan"),
        2 => Some("Luo Xiang"),
        3 => Some("Doubao"),
        4 => Some("Yang Mi"),
        5 => Some("Ma Yun"),
        6 => Some("BYS"),
        7 => Some("Marc"),
        _ => None,
    }
}

/// The dataflow node that speaks for a role, if the role is known.
pub open spec fn role_node_id(role: Seq<char>) -> Option<Seq<char>> {
    if role == "student1"@ {
        Some("primespeech-student1"@)
    } else if role == "student2"@ {
        Some("primespeech-student2"@)
    } else if role == "tutor"@ {
        Some("primespeech-tutor"@)
    } else {
        None
    }
}

/// Map a role to its text-to-speech node identifier.
pub fn role_to_node_id(role: &str) -> (r: Option<&'static str>)
    ensures
        match r {
            Some(s) => role_node_id(role@) == Some(s@),
            None => role_node_id(role@) is None,
        },
{
    if str_eq(role, "student1") {
        Some("primespeech-student1")
    } else if str_eq(role, "student2") {
        Some("primespeech-student2")
    } else if str_eq(role, "tutor") {
        Some("primespeech-tutor")
    } else {
        None
    }
}

/// The config file name of a role (student1's for unknown roles).
pub open spec fn role_config_file(role: Seq<char>) -> Seq<char> {
    if role == "student2"@ {
        "study_config_student2.toml"@
    } else if role == "tutor"@ {
        "study_config_tutor.toml"@
    } else {
        "study_config_student1.toml"@
    }
}

/// Map a role to its config file name.
pub fn role_config_name(role: &str) -> (r: &'static str)
    ensures
        r@ == role_config_file(role@),
{
    if str_eq(role, "student2") {
        "study_config_student2.toml"
    } else if str_eq(role, "tutor") {
        "study_config_tutor.toml"
    } else {
        "study_config_student1.toml"
    }
}

} // verus!
