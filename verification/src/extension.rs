//! Loaded extensions and their manifests.
//!
//! An `Extension` owns one compiled binary image and the opaque
//! configuration handed to the guest's constructor. The file reading and
//! directory scanning that produce these values are the surrounding
//! runtime's work; the decisions verified here are the path resolution rule
//! and the manifest field rules.

use vstd::prelude::*;
use vstd::string::StringExecFns;

use crate::error::ManifestError;
use crate::json::{JVal, Json};
use crate::parse::{parse_json, sp_json};
use crate::protocol::Id;
use crate::text::chars_of;

verus! {

broadcast use vstd::std_specs::vec::group_vec_axioms, vstd::seq::group_seq_axioms;

/// A loaded extension: its id, its binary image, and the configuration
/// string its instances are constructed with.
#[derive(Debug, Clone)]
pub struct Extension {
    pub id: Id,
    pub wasm_bytes: Vec<u8>,
    pub config: String,
}

impl Extension {
    /// Wrap a loaded binary image.
    pub fn new(id: Id, wasm_bytes: Vec<u8>, config: String) -> (r: Self)
        ensures
            r.id@ == id@,
            r.wasm_bytes@ == wasm_bytes@,
            r.config@ == config@,
    {
        Extension { id, wasm_bytes, config }
    }

    /// Set the configuration JSON for the extension.
    pub fn with_config(self, config: String) -> (r: Self)
        ensures
            r.id@ == self.id@,
            r.wasm_bytes@ == self.wasm_bytes@,
            r.config@ == config@,
    {
        Extension { id: self.id, wasm_bytes: self.wasm_bytes, config }
    }
}

/// Whether a path already names a binary component file.
pub open spec fn has_wasm_suffix(s: Seq<char>) -> bool {
    s.len() >= 5 && s.subrange(s.len() - 5, s.len() as int) == ".wasm"@
}

/// Where the binary of an extension lives: a path that already names a
/// `.wasm` file is used as it stands; any other path is taken for a
/// directory expected to hold `extension.wasm`.
pub fn resolve_wasm_path(path: &str) -> (r: String)
    ensures
        has_wasm_suffix(path@) ==> r@ == path@,
        !has_wasm_suffix(path@) ==> r@ == path@ + "/extension.wasm"@,
{
    let cs = chars_of(path);
    proof {
        reveal_strlit(".wasm");
        assert(".wasm"@ =~= seq!['.', 'w', 'a', 's', 'm']);
    }
    let n = cs.len();
    let suffixed = n >= 5 && cs[n - 5] == '.' && cs[n - 4] == 'w' && cs[n - 3] == 'a' && cs[n
        - 2] == 's' && cs[n - 1] == 'm';
    proof {
        if n >= 5 {
            assert(cs@.subrange(n - 5, n as int) =~= seq![
                cs@[n - 5],
                cs@[n - 4],
                cs@[n - 3],
                cs@[n - 2],
                cs@[n - 1],
            ]);
        }
    }
    if suffixed {
        path.to_owned()
    } else {
        let mut r = path.to_owned();
        r.append("/extension.wasm");
        r
    }
}

/// An extension's manifest: its identity and where its binary lives.
#[derive(Debug, PartialEq)]
pub struct Manifest {
    pub id: Id,
    pub name: String,
    pub version: String,
    pub description: String,
    pub provider: String,
    pub schema: Json,
    pub component_entry: String,
}

/// What the configuration schema field reads as: its JSON value, or an
/// empty object when it is absent or does not parse.
pub open spec fn schema_of_text(t: Option<Seq<char>>) -> JVal {
    match t {
        Some(s) => match sp_json(s) {
            Some(v) => v,
            None => JVal::Obj(Seq::empty()),
        },
        None => JVal::Obj(Seq::empty()),
    }
}

pub open spec fn os_view(o: Option<String>) -> Option<Seq<char>> {
    match o {
        Some(s) => Some(s@),
        None => None,
    }
}

/// Assembles a manifest from the fields its file yielded: the three
/// sections must exist, then the identity fields and the component entry.
/// The provider is the company when one is named, else the author, else
/// empty; the description defaults to empty and the schema to an empty
/// object. Each missing requirement is reported, in this order.
pub fn manifest_from_fields(
    has_extension: bool,
    has_component: bool,
    has_config: bool,
    id: Option<Id>,
    name: Option<String>,
    version: Option<String>,
    description: Option<String>,
    company: Option<String>,
    author: Option<String>,
    entry: Option<String>,
    schema_text: Option<String>,
) -> (r: Result<Manifest, ManifestError>)
    ensures
        !has_extension ==> (r matches Err(e) && e matches ManifestError::Missing(a, b) && a@
            == "section"@ && b@ == "extension"@),
        has_extension && !has_component ==> (r matches Err(e) && e matches
            ManifestError::Missing(a, b) && a@ == "section"@ && b@ == "component"@),
        has_extension && has_component && !has_config ==> (r matches Err(e) && e matches
            ManifestError::Missing(a, b) && a@ == "section"@ && b@ == "config"@),
        has_extension && has_component && has_config && id is None ==> (r matches Err(e) && e
            matches ManifestError::Missing(a, b) && a@ == "extension"@ && b@ == "id"@),
        has_extension && has_component && has_config && id is Some && name is None ==> (r
            matches Err(e) && e matches ManifestError::Missing(a, b) && a@ == "extension"@ && b@
            == "name"@),
        has_extension && has_component && has_config && id is Some && name is Some && version
            is None ==> (r matches Err(e) && e matches ManifestError::Missing(a, b) && a@
            == "extension"@ && b@ == "version"@),
        has_extension && has_component && has_config && id is Some && name is Some && version
            is Some && entry is None ==> (r matches Err(e) && e matches ManifestError::Missing(
            a,
            b,
        ) && a@ == "component"@ && b@ == "entry"@),
        (has_extension && has_component && has_config && id is Some && name is Some && version
            is Some && entry is Some) <==> r is Ok,
        r matches Ok(m) ==> {
            &&& m.id@ == id->Some_0@
            &&& m.name@ == name->Some_0@
            &&& m.version@ == version->Some_0@
            &&& m.component_entry@ == entry->Some_0@
            &&& m.description@ == (match description {
                Some(d) => d@,
                None => Seq::<char>::empty(),
            })
            &&& m.provider@ == (match company {
                Some(c) => c@,
                None => match author {
                    Some(a) => a@,
                    None => Seq::<char>::empty(),
                },
            })
            &&& m.schema@ == schema_of_text(os_view(schema_text))
        },
{
    if !has_extension {
        return Err(ManifestError::Missing("section".to_owned(), "extension".to_owned()));
    }
    if !has_component {
        return Err(ManifestError::Missing("section".to_owned(), "component".to_owned()));
    }
    if !has_config {
        return Err(ManifestError::Missing("section".to_owned(), "config".to_owned()));
    }
    let id = match id {
        Some(v) => v,
        None => {
            return Err(ManifestError::Missing("extension".to_owned(), "id".to_owned()));
        },
    };
    let name = match name {
        Some(v) => v,
        None => {
            return Err(ManifestError::Missing("extension".to_owned(), "name".to_owned()));
        },
    };
    let version = match version {
        Some(v) => v,
        None => {
            return Err(ManifestError::Missing("extension".to_owned(), "version".to_owned()));
        },
    };
    let component_entry = match entry {
        Some(v) => v,
        None => {
            return Err(ManifestError::Missing("component".to_owned(), "entry".to_owned()));
        },
    };
    let description = match description {
        Some(d) => d,
        None => String::new(),
    };
    let provider = match company {
        Some(c) => c,
        None => match author {
            Some(a) => a,
            None => String::new(),
        },
    };
    let schema = match schema_text {
        Some(t) => match parse_json(t.as_str()) {
            Some(j) => j,
            None => Json::Obj(Vec::new()),
        },
        None => Json::Obj(Vec::new()),
    };
    proof {
        assert(crate::json::jview_pairs(Seq::<(String, Json)>::empty())
            =~= Seq::<(Seq<char>, JVal)>::empty());
    }
    Ok(Manifest { id, name, version, description, provider, schema, component_entry })
}

} // verus!
