//! Which binary serves a tool: Vite+ or the standalone Oxc package.
use vstd::prelude::*;
use crate::json::{Json, JsonValue, member};
use crate::text::str_eq;

verus! {

/// Where a tool's language server comes from.
#[derive(Clone, Copy, Debug, PartialEq, Eq, Structural)]
pub enum BinarySource {
    /// Vite+ where the project declares it or a `vpPath` is given.
    Auto,
    /// Vite+, without a declaration.
    VitePlus,
    /// The standalone Oxlint or Oxfmt; `vpPath` is ignored.
    Oxc,
}

/// The source options of one tool.
#[derive(Debug, PartialEq, Eq)]
pub struct Options {
    pub source: BinarySource,
    /// A particular `vp` executable, Node entry or package-manager shim.
    pub vp_path: Option<String>,
}

impl Default for Options {
    fn default() -> (r: Self)
        ensures
            r.source == BinarySource::Auto,
            r.vp_path is None,
    {
        Options { source: BinarySource::Auto, vp_path: None }
    }
}

/// The source that a `binarySource` setting names, if it names one.
pub open spec fn source_named(v: JsonValue) -> Option<BinarySource> {
    if v == JsonValue::Str("auto"@) {
        Some(BinarySource::Auto)
    } else if v == JsonValue::Str("vite-plus"@) {
        Some(BinarySource::VitePlus)
    } else if v == JsonValue::Str("oxc"@) {
        Some(BinarySource::Oxc)
    } else {
        None
    }
}

/// The source that the settings choose: `auto` where they name none, and no
/// source where they name an unknown one or give a value that is not a
/// string.
pub open spec fn spec_source(settings: Option<JsonValue>) -> Option<BinarySource> {
    match settings {
        Some(s) => match member(s, "binarySource"@) {
            Some(v) => source_named(v),
            None => Some(BinarySource::Auto),
        },
        None => Some(BinarySource::Auto),
    }
}

/// A `vpPath` setting is given and is not a non-empty string.
pub open spec fn vp_path_invalid(settings: Option<JsonValue>) -> bool {
    match settings {
        Some(s) => match member(s, "vpPath"@) {
            Some(JsonValue::Str(p)) => p.len() == 0,
            Some(_) => true,
            None => false,
        },
        None => false,
    }
}

/// The `vpPath` that the settings give.
pub open spec fn spec_vp_path(settings: Option<JsonValue>) -> Option<Seq<char>> {
    match settings {
        Some(s) => match member(s, "vpPath"@) {
            Some(JsonValue::Str(p)) => Some(p),
            _ => None,
        },
        None => None,
    }
}

pub open spec fn invalid_source_message() -> Seq<char> {
    "binarySource must be \"auto\", \"vite-plus\" or \"oxc\""@
}

pub open spec fn invalid_vp_path_message() -> Seq<char> {
    "vpPath must be a non-empty string"@
}

fn source_from_text(text: &str) -> (r: Option<BinarySource>)
    ensures
        r == source_named(JsonValue::Str(text@)),
{
    if str_eq(text, "auto") {
        Some(BinarySource::Auto)
    } else if str_eq(text, "vite-plus") {
        Some(BinarySource::VitePlus)
    } else if str_eq(text, "oxc") {
        Some(BinarySource::Oxc)
    } else {
        None
    }
}

impl Options {
    /// The options that a tool's configuration sets. A `binarySource` other
    /// than `auto`, `vite-plus` or `oxc` is an error; so is a `vpPath` that
    /// is not a non-empty string, unless the source is `oxc`, which ignores
    /// `vpPath`.
    pub fn from_settings(settings: Option<&Json>) -> (r: Result<Options, String>)
        ensures
            ({
                let s = match settings {
                    Some(j) => Some(j@),
                    None => None,
                };
                match r {
                    Ok(o) => {
                        &&& spec_source(s) == Some(o.source)
                        &&& o.source == BinarySource::Oxc ==> o.vp_path is None
                        &&& o.source != BinarySource::Oxc ==> !vp_path_invalid(s) && match o.vp_path {
                            Some(p) => spec_vp_path(s) == Some(p@),
                            None => spec_vp_path(s) is None,
                        }
                    },
                    Err(e) => {
                        ||| spec_source(s) is None && e@ == invalid_source_message()
                        ||| spec_source(s) matches Some(src) && src != BinarySource::Oxc
                            && vp_path_invalid(s) && e@ == invalid_vp_path_message()
                    },
                }
            }),
    {
        let settings = match settings {
            Some(s) => s,
            None => return Ok(Options::default()),
        };
        let source = match settings.get("binarySource") {
            Some(v) => match v.as_str() {
                Some(text) => match source_from_text(text) {
                    Some(src) => src,
                    None => return Err(
                        "binarySource must be \"auto\", \"vite-plus\" or \"oxc\"".to_owned(),
                    ),
                },
                None => return Err("binarySource must be \"auto\", \"vite-plus\" or \"oxc\"".to_owned()),
            },
            None => BinarySource::Auto,
        };
        if source == BinarySource::Oxc {
            return Ok(Options { source, vp_path: None });
        }
        let vp_path = match settings.get("vpPath") {
            Some(v) => match v.as_str() {
                Some(p) => {
                    if p.is_empty() {
                        return Err("vpPath must be a non-empty string".to_owned());
                    }
                    Some(p.to_owned())
                },
                None => return Err("vpPath must be a non-empty string".to_owned()),
            },
            None => None,
        };
        Ok(Options { source, vp_path })
    }
}

/// An explicit `vpPath` is used as given: whenever the settings' `vpPath` is
/// a non-empty string, it is the `vpPath` of the options and is valid, with
/// or without a `binarySource`. The source is the one `binarySource` names,
/// and `auto` where it is not given.
pub proof fn lemma_explicit_vp_path_is_kept(s: JsonValue, p: Seq<char>)
    ensures
        (member(s, "vpPath"@) == Some(JsonValue::Str(p)) && p.len() > 0) ==> {
            &&& spec_vp_path(Some(s)) == Some(p)
            &&& !vp_path_invalid(Some(s))
        },
        member(s, "vpPath"@) is None ==> spec_vp_path(Some(s)) is None && !vp_path_invalid(Some(s)),
        member(s, "binarySource"@) is None ==> spec_source(Some(s)) == Some(BinarySource::Auto),
        member(s, "binarySource"@) == Some(JsonValue::Str("auto"@)) ==> spec_source(Some(s)) == Some(
            BinarySource::Auto,
        ),
        member(s, "binarySource"@) == Some(JsonValue::Str("vite-plus"@)) ==> spec_source(Some(s))
            == Some(BinarySource::VitePlus),
        member(s, "binarySource"@) == Some(JsonValue::Str("oxc"@)) ==> spec_source(Some(s)) == Some(
            BinarySource::Oxc,
        ),
        (member(s, "binarySource"@) matches Some(v) && v != JsonValue::Str("auto"@) && v
            != JsonValue::Str("vite-plus"@) && v != JsonValue::Str("oxc"@)) ==> spec_source(Some(s))
            is None,
        (member(s, "vpPath"@) matches Some(v) && !(v matches JsonValue::Str(q) && q.len() > 0))
            ==> vp_path_invalid(Some(s)),
{
    reveal_strlit("auto");
    reveal_strlit("vite-plus");
    reveal_strlit("oxc");
    assert("vite-plus"@ != "auto"@) by {
        assert("vite-plus"@.len() != "auto"@.len());
    }
    assert("oxc"@ != "auto"@) by {
        assert("oxc"@.len() != "auto"@.len());
    }
    assert("oxc"@ != "vite-plus"@) by {
        assert("oxc"@.len() != "vite-plus"@.len());
    }
}

} // verus!
