//! Role configuration of the voice-chat study session, and the voice
//! settings of the roles' text-to-speech nodes in the dataflow YAML.
//!
//! Reading and writing the files is done by the caller; these functions
//! compute the values read from, and the texts written back to, the files.
//! Edits are regex replacements so that formatting and comments survive.

use vstd::prelude::*;
use vstd::string::*;
use crate::text::{opt_view, chars_of, string_from_chars, trimmed, trim};
use crate::providers::strings_view;
use crate::voice::{
    display_to_id, id_to_display, role_node_id, voice_display_to_id, voice_id_to_display,
    role_to_node_id,
};
use crate::pattern::{
    regex_escaped, regex_escape, regex_first_match, regex_find, regex_first_group,
    regex_first_group_of, regex_replaced, regex_replace,
};

verus! {

/// Matches the `default_model` line of a role config.
pub open spec fn model_line_re() -> Seq<char> {
    "(?m)^default_model\\s*=\\s*\"[^\"]*\""@
}

/// Matches the `voice` line of a role config.
pub open spec fn voice_line_re() -> Seq<char> {
    "(?m)^voice\\s*=\\s*\"[^\"]*\""@
}

/// Matches the triple-quoted `system_prompt` of a role config.
pub open spec fn prompt_re() -> Seq<char> {
    "(?ms)^system_prompt\\s*=\\s*\"\"\".*?\"\"\""@
}

/// The start of any node entry of a dataflow.
pub open spec fn next_node_re() -> Seq<char> {
    "(?m)^  - id: "@
}

/// The line that opens the entry of node `node_id`.
pub open spec fn node_line_re(node_id: Seq<char>) -> Seq<char> {
    "(?m)^  - id: "@ + regex_escaped(node_id) + "\\s*$"@
}

/// A `VOICE_CHARACTER` setting, with its key as group 1.
pub open spec fn vc_set_re() -> Seq<char> {
    "(?m)(^\\s*VOICE_CHARACTER:\\s*)[\"']?[^\"'\\n]*[\"']?[ \\t]*$"@
}

/// A `VOICE_NAME` setting, with its key as group 1.
pub open spec fn vn_set_re() -> Seq<char> {
    "(?m)(^\\s*VOICE_NAME:\\s*)[\"']?[^\"'\\n]*[\"']?[ \\t]*$"@
}

/// A `VOICE_CHARACTER` setting, with its value as group 1.
pub open spec fn vc_get_re() -> Seq<char> {
    "(?m)^\\s*VOICE_CHARACTER:\\s*[\"']?([^\"'\\n]+)[\"']?\\s*$"@
}

/// A `VOICE_NAME` setting, with its value as group 1.
pub open spec fn vn_get_re() -> Seq<char> {
    "(?m)^\\s*VOICE_NAME:\\s*[\"']?([^\"'\\n]+)[\"']?\\s*$"@
}

/// The text with every `$` doubled, so that a regex replacement writes it
/// literally instead of reading a group reference.
pub open spec fn dollars_doubled(s: Seq<char>) -> Seq<char>
    decreases s.len(),
{
    if s.len() == 0 {
        Seq::empty()
    } else {
        dollars_doubled(s.drop_last()) + if s.last() == '$' {
            seq!['$', '$']
        } else {
            seq![s.last()]
        }
    }
}

/// Doubles every `$` of a replacement value.
pub fn escape_dollars(s: &str) -> (r: String)
    ensures
        r@ == dollars_doubled(s@),
{
    let cs = chars_of(s);
    let mut out: Vec<char> = Vec::new();
    let mut i: usize = 0;
    while i < cs.len()
        invariant
            cs@ == s@,
            i <= cs.len(),
            out@ == dollars_doubled(cs@.take(i as int)),
        decreases cs.len() - i,
    {
        let c = cs[i];
        let ghost before = out@;
        assert(cs@.take(i + 1).drop_last() =~= cs@.take(i as int));
        assert(cs@.take(i + 1).last() == c);
        if c == '$' {
            out.push('$');
            out.push('$');
            assert(out@ =~= before + seq!['$', '$']);
        } else {
            out.push(c);
            assert(out@ =~= before + seq![c]);
        }
        i = i + 1;
    }
    assert(cs@.take(cs.len() as int) =~= cs@);
    string_from_chars(&out)
}

/// The span of the entry of node `node_id` in a dataflow: from its `- id:`
/// line to the next entry or the end of the text. `None` when the node has
/// no entry; the regex error message when a pattern does not compile.
pub open spec fn node_section(content: Seq<char>, node_id: Seq<char>) -> Result<
    Option<(int, int)>,
    Seq<char>,
> {
    match regex_first_match(node_line_re(node_id), content) {
        Err(m) => Err(m),
        Ok(None) => Ok(None),
        Ok(Some((s, e))) => match regex_first_match(
            next_node_re(),
            content.subrange(e, content.len() as int),
        ) {
            Err(m) => Err(m),
            Ok(Some((s2, _))) => Ok(Some((s, e + s2))),
            Ok(None) => Ok(Some((s, content.len() as int))),
        },
    }
}

/// The dataflow text after setting the voice of `role`: `Ok(None)` when the
/// role's node has no entry, otherwise the text with the node's
/// `VOICE_CHARACTER` set to the voice's identifier or, failing that, its
/// `VOICE_NAME` set to the display name, quoted.
pub open spec fn yaml_voice_update(content: Seq<char>, role: Seq<char>, voice: Seq<char>) -> Result<
    Option<Seq<char>>,
    Seq<char>,
> {
    match role_node_id(role) {
        None => Err("Unknown role: "@ + role),
        Some(nid) => match node_section(content, nid) {
            Err(m) => Err("Invalid regex: "@ + m),
            Ok(None) => Ok(None),
            Ok(Some((s, t))) => {
                let sec = content.subrange(s, t);
                match regex_first_match(vc_set_re(), sec) {
                    Err(m) => Err("Invalid regex: "@ + m),
                    Ok(vc) => match regex_first_match(vn_set_re(), sec) {
                        Err(m) => Err("Invalid regex: "@ + m),
                        Ok(vn) => if vc is None && vn is None {
                            Err("VOICE_CHARACTER/VOICE_NAME not found in "@ + nid + " section"@)
                        } else {
                            let pat = if vc is Some {
                                vc_set_re()
                            } else {
                                vn_set_re()
                            };
                            let value = if vc is Some {
                                display_to_id(voice)
                            } else {
                                voice
                            };
                            match regex_replaced(pat, sec, "$1\""@ + dollars_doubled(value) + "\""@) {
                                Err(m) => Err("Invalid regex: "@ + m),
                                Ok(new_sec) => Ok(
                                    Some(
                                        content.subrange(0, s) + new_sec + content.subrange(
                                            t,
                                            content.len() as int,
                                        ),
                                    ),
                                ),
                            }
                        },
                    },
                }
            },
        },
    }
}

/// The voice display name set for `role` in a dataflow text:
/// `VOICE_CHARACTER` (an identifier, shown by its display name) first, then
/// `VOICE_NAME` (a display name), both trimmed.
pub open spec fn yaml_voice_read(content: Seq<char>, role: Seq<char>) -> Option<Seq<char>> {
    match role_node_id(role) {
        None => None,
        Some(nid) => match node_section(content, nid) {
            Ok(Some((s, t))) => {
                let sec = content.subrange(s, t);
                match regex_first_group(vc_get_re(), sec) {
                    Err(_) => None,
                    Ok(Some(g)) => match g {
                        Some(id) => Some(id_to_display(trimmed(id))),
                        None => None,
                    },
                    Ok(None) => match regex_first_group(vn_get_re(), sec) {
                        Ok(Some(Some(v))) => Some(trimmed(v)),
                        _ => None,
                    },
                }
            },
            _ => None,
        },
    }
}

/// The characters of a string between two positions.
fn substring(s: &str, from: usize, to: usize) -> (r: String)
    requires
        from <= to <= s@.len(),
    ensures
        r@ == s@.subrange(from as int, to as int),
{
    let cs = chars_of(s);
    let mut out: Vec<char> = Vec::new();
    let mut i: usize = from;
    while i < to
        invariant
            cs@ == s@,
            from <= i <= to,
            to <= cs@.len(),
            out@ == cs@.subrange(from as int, i as int),
        decreases to - i,
    {
        out.push(cs[i]);
        i = i + 1;
        assert(out@ =~= cs@.subrange(from as int, i as int));
    }
    string_from_chars(&out)
}

/// `prefix` followed by `s`.
fn prefixed(prefix: &str, s: &str) -> (r: String)
    ensures
        r@ == prefix@ + s@,
{
    let mut r = prefix.to_owned();
    r.append(s);
    r
}

/// The span of a node's entry, as `node_section` describes it.
fn find_node_section(content: &str, node_id: &str) -> (r: Result<Option<(usize, usize)>, String>)
    ensures
        match r {
            Ok(Some((s, t))) => node_section(content@, node_id@) == Ok::<Option<(int, int)>, Seq<char>>(
                Some((s as int, t as int)),
            ) && s <= t <= content@.len(),
            Ok(None) => node_section(content@, node_id@) == Ok::<Option<(int, int)>, Seq<char>>(
                None,
            ),
            Err(m) => node_section(content@, node_id@) == Err::<Option<(int, int)>, Seq<char>>(m@),
        },
{
    let escaped = regex_escape(node_id);
    let mut pattern = "(?m)^  - id: ".to_owned();
    pattern.append(escaped.as_str());
    pattern.append("\\s*$");
    match regex_find(pattern.as_str(), content) {
        Err(m) => Err(m),
        Ok(None) => Ok(None),
        Ok(Some((s, e))) => {
            let len = content.unicode_len();
            let rest = substring(content, e, len);
            match regex_find("(?m)^  - id: ", rest.as_str()) {
                Err(m) => Err(m),
                Ok(Some((s2, _))) => Ok(Some((s, e + s2))),
                Ok(None) => Ok(Some((s, len))),
            }
        },
    }
}

/// The dataflow text with the voice of `role` set, as `yaml_voice_update`
/// describes it.
pub fn updated_yaml_voice(content: &str, role: &str, voice: &str) -> (r: Result<Option<String>, String>)
    ensures
        match r {
            Ok(Some(c)) => yaml_voice_update(content@, role@, voice@) == Ok::<Option<Seq<char>>, Seq<char>>(Some(c@)),
            Ok(None) => yaml_voice_update(content@, role@, voice@) == Ok::<Option<Seq<char>>, Seq<char>>(None),
            Err(m) => yaml_voice_update(content@, role@, voice@) == Err::<Option<Seq<char>>, Seq<char>>(m@),
        },
{
    let voice_id = voice_display_to_id(voice);
    let node_id = match role_to_node_id(role) {
        Some(n) => n,
        None => {
            return Err(prefixed("Unknown role: ", role));
        },
    };
    let (s, t) = match find_node_section(content, node_id) {
        Err(m) => {
            return Err(prefixed("Invalid regex: ", m.as_str()));
        },
        Ok(None) => {
            return Ok(None);
        },
        Ok(Some(span)) => span,
    };
    let section = substring(content, s, t);
    let vc_pattern = "(?m)(^\\s*VOICE_CHARACTER:\\s*)[\"']?[^\"'\\n]*[\"']?[ \\t]*$";
    let vn_pattern = "(?m)(^\\s*VOICE_NAME:\\s*)[\"']?[^\"'\\n]*[\"']?[ \\t]*$";
    let vc = match regex_find(vc_pattern, section.as_str()) {
        Err(m) => {
            return Err(prefixed("Invalid regex: ", m.as_str()));
        },
        Ok(x) => x,
    };
    let vn = match regex_find(vn_pattern, section.as_str()) {
        Err(m) => {
            return Err(prefixed("Invalid regex: ", m.as_str()));
        },
        Ok(x) => x,
    };
    let (pattern, value) = if vc.is_some() {
        (vc_pattern, voice_id)
    } else if vn.is_some() {
        (vn_pattern, voice)
    } else {
        let mut m = prefixed("VOICE_CHARACTER/VOICE_NAME not found in ", node_id);
        m.append(" section");
        return Err(m);
    };
    let mut replacement = "$1\"".to_owned();
    let escaped_value = escape_dollars(value);
    replacement.append(escaped_value.as_str());
    replacement.append("\"");
    let new_section = match regex_replace(pattern, section.as_str(), replacement.as_str()) {
        Err(m) => {
            return Err(prefixed("Invalid regex: ", m.as_str()));
        },
        Ok(x) => x,
    };
    let len = content.unicode_len();
    let mut out = substring(content, 0, s);
    out.append(new_section.as_str());
    let tail = substring(content, t, len);
    out.append(tail.as_str());
    Ok(Some(out))
}

/// The voice display name set for `role` in a dataflow text, as
/// `yaml_voice_read` describes it.
pub fn yaml_voice(content: &str, role: &str) -> (r: Option<String>)
    ensures
        opt_view(r) == yaml_voice_read(content@, role@),
{
    let node_id = role_to_node_id(role)?;
    let (s, t) = match find_node_section(content, node_id) {
        Ok(Some(span)) => span,
        _ => {
            return None;
        },
    };
    let section = substring(content, s, t);
    match regex_first_group_of(
        "(?m)^\\s*VOICE_CHARACTER:\\s*[\"']?([^\"'\\n]+)[\"']?\\s*$",
        section.as_str(),
    ) {
        Err(_) => None,
        Ok(Some(g)) => match g {
            Some(id) => {
                let trimmed_id = trim(id.as_str());
                Some(voice_id_to_display(trimmed_id.as_str()).to_owned())
            },
            None => None,
        },
        Ok(None) => match regex_first_group_of(
            "(?m)^\\s*VOICE_NAME:\\s*[\"']?([^\"'\\n]+)[\"']?\\s*$",
            section.as_str(),
        ) {
            Ok(Some(Some(v))) => Some(trim(v.as_str())),
            _ => None,
        },
    }
}

/// Role configuration loaded from a TOML file.
#[derive(Debug)]
pub struct RoleConfig {
    pub default_model: String,
    pub system_prompt: String,
    pub voice: String,
    pub models: Vec<String>,
    pub config_path: Option<String>,
}

impl Default for RoleConfig {
    fn default() -> (r: Self)
        ensures
            r.default_model@.len() == 0,
            r.system_prompt@.len() == 0,
            r.voice@.len() == 0,
            r.models@.len() == 0,
            r.config_path is None,
    {
        RoleConfig {
            default_model: String::new(),
            system_prompt: String::new(),
            voice: String::new(),
            models: Vec::new(),
            config_path: None,
        }
    }
}

/// The config text after writing back the model, voice and prompt.
pub open spec fn config_update(model: Seq<char>, voice: Seq<char>, prompt: Seq<char>, content: Seq<
    char,
>) -> Result<Seq<char>, Seq<char>> {
    match regex_replaced(model_line_re(), content, "default_model = \""@ + dollars_doubled(model) + "\""@) {
        Err(m) => Err("Invalid regex: "@ + m),
        Ok(c1) => match regex_replaced(voice_line_re(), c1, "voice = \""@ + dollars_doubled(voice) + "\""@) {
            Err(m) => Err("Invalid regex: "@ + m),
            Ok(c2) => match regex_replaced(
                prompt_re(),
                c2,
                "system_prompt = \"\"\""@ + dollars_doubled(prompt) + "\"\"\""@,
            ) {
                Err(m) => Err("Invalid regex: "@ + m),
                Ok(c3) => Ok(c3),
            },
        },
    }
}

/// The value of an optional string, or the empty string.
pub open spec fn or_empty(a: Option<Seq<char>>) -> Seq<char> {
    match a {
        Some(x) => x,
        None => Seq::empty(),
    }
}

impl RoleConfig {
    /// Builds the configuration from the values read from a TOML file:
    /// missing strings are empty, a missing voice is "Zhao Daniu", and the
    /// models are the identifiers of the listed models.
    pub fn from_toml_values(
        default_model: Option<String>,
        system_prompt: Option<String>,
        voice: Option<String>,
        model_ids: Option<Vec<String>>,
        config_path: String,
    ) -> (r: Self)
        ensures
            r.default_model@ == or_empty(opt_view(default_model)),
            r.system_prompt@ == or_empty(opt_view(system_prompt)),
            r.voice@ == match voice {
                Some(v) => v@,
                None => "Zhao Daniu"@,
            },
            strings_view(r.models@) == match model_ids {
                Some(m) => strings_view(m@),
                None => Seq::empty(),
            },
            opt_view(r.config_path) == Some(config_path@),
    {
        let models = match model_ids {
            Some(m) => m,
            None => Vec::new(),
        };
        assert(match model_ids {
            Some(m) => strings_view(m@),
            None => Seq::<Seq<char>>::empty(),
        } =~= strings_view(models@));
        RoleConfig {
            default_model: match default_model {
                Some(s) => s,
                None => String::new(),
            },
            system_prompt: match system_prompt {
                Some(s) => s,
                None => String::new(),
            },
            voice: match voice {
                Some(v) => v,
                None => "Zhao Daniu".to_owned(),
            },
            models,
            config_path: Some(config_path),
        }
    }

    /// The config file text with this configuration's model, voice and
    /// system prompt written over the old values.
    pub fn updated_config_text(&self, content: &str) -> (r: Result<String, String>)
        ensures
            match r {
                Ok(c) => config_update(self.default_model@, self.voice@, self.system_prompt@, content@)
                    == Ok::<Seq<char>, Seq<char>>(c@),
                Err(m) => config_update(self.default_model@, self.voice@, self.system_prompt@, content@)
                    == Err::<Seq<char>, Seq<char>>(m@),
            },
    {
        let mut rep1 = "default_model = \"".to_owned();
        let model = escape_dollars(self.default_model.as_str());
        rep1.append(model.as_str());
        rep1.append("\"");
        let c1 = match regex_replace("(?m)^default_model\\s*=\\s*\"[^\"]*\"", content, rep1.as_str()) {
            Err(m) => {
                return Err(prefixed("Invalid regex: ", m.as_str()));
            },
            Ok(c) => c,
        };
        let mut rep2 = "voice = \"".to_owned();
        let voice = escape_dollars(self.voice.as_str());
        rep2.append(voice.as_str());
        rep2.append("\"");
        let c2 = match regex_replace("(?m)^voice\\s*=\\s*\"[^\"]*\"", c1.as_str(), rep2.as_str()) {
            Err(m) => {
                return Err(prefixed("Invalid regex: ", m.as_str()));
            },
            Ok(c) => c,
        };
        let mut rep3 = "system_prompt = \"\"\"".to_owned();
        let prompt = escape_dollars(self.system_prompt.as_str());
        rep3.append(prompt.as_str());
        rep3.append("\"\"\"");
        match regex_replace(
            "(?ms)^system_prompt\\s*=\\s*\"\"\".*?\"\"\"",
            c2.as_str(),
            rep3.as_str(),
        ) {
            Err(m) => Err(prefixed("Invalid regex: ", m.as_str())),
            Ok(c) => Ok(c),
        }
    }
}

} // verus!
