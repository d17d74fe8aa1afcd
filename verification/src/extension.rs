//! Extensions: discoverable content bundles with a declarative manifest, an
//! optional entry script, and an activate/deactivate lifecycle that keeps the
//! registry's mount table and the host's active set in step.

use vstd::prelude::*;

use crate::json::JsonValue;
use crate::extension_host::ExtensionHost;
use crate::registry::Registry;
use crate::resources::custom_protocol;
use crate::text::{strip_slashes, trim_leading_slashes};
use vstd::string::StringExecFns;

verus! {

/// Why a directory did not yield an extension: its manifest did not parse,
/// or it parsed but does not have the declared shape.
#[derive(Debug, PartialEq)]
pub enum ExtensionError {
    ManifestParse(String),
    ManifestInvalid(String),
}

impl ExtensionError {
    /// The failure, spelled out.
    pub fn message(&self) -> (r: &String)
        ensures
            match *self {
                ExtensionError::ManifestParse(m) => *r == m,
                ExtensionError::ManifestInvalid(m) => *r == m,
            },
    {
        match self {
            ExtensionError::ManifestParse(m) => m,
            ExtensionError::ManifestInvalid(m) => m,
        }
    }
}

/// The declarative record in an extension's directory: the unique id, a
/// display name, the relative path of the entry script — empty meaning the
/// extension ships no script — and the window labels that auto-load it.
pub struct ExtensionManifest {
    pub id: String,
    pub name: String,
    pub main: String,
    pub activate_on: Vec<String>,
}

/// The first value stored under key `k`, if any.
pub open spec fn field_of(fields: Seq<(String, JsonValue)>, k: Seq<char>) -> Option<JsonValue>
    decreases fields.len(),
{
    if fields.len() == 0 {
        None
    } else if fields[0].0@ == k {
        Some(fields[0].1)
    } else {
        field_of(fields.drop_first(), k)
    }
}

proof fn lemma_field_of_at(fields: Seq<(String, JsonValue)>, k: Seq<char>, i: int)
    requires
        0 <= i <= fields.len(),
        forall|j: int| 0 <= j < i ==> (#[trigger] fields[j]).0@ != k,
        i < fields.len() ==> fields[i].0@ == k,
    ensures
        i < fields.len() ==> field_of(fields, k) == Some(fields[i].1),
        i == fields.len() ==> field_of(fields, k) is None,
    decreases i,
{
    if fields.len() > 0 && i > 0 {
        lemma_field_of_at(fields.drop_first(), k, i - 1);
    }
}

/// Finds the first field stored under `k`.
fn lookup_field<'a>(fields: &'a Vec<(String, JsonValue)>, k: &str) -> (r: Option<&'a JsonValue>)
    ensures
        match r {
            Some(v) => field_of(fields@, k@) == Some(*v),
            None => field_of(fields@, k@) is None,
        },
{
    let n = fields.len();
    let mut i: usize = 0;
    while i < n
        invariant
            i <= n,
            n == fields@.len(),
            forall|j: int| 0 <= j < i ==> (#[trigger] fields@[j]).0@ != k@,
        decreases n - i,
    {
        if crate::text::str_eq(fields[i].0.as_str(), k) {
            proof {
                lemma_field_of_at(fields@, k@, i as int);
            }
            return Some(&fields[i].1);
        }
        i = i + 1;
    }
    proof {
        lemma_field_of_at(fields@, k@, n as int);
    }
    None
}

/// Whether a parsed manifest document has the declared shape: an object with
/// a string `id`, string `name` and `main` if present, and `activate_on` an
/// array of strings if present.
pub open spec fn manifest_shape_ok(v: JsonValue) -> bool {
    &&& v matches JsonValue::Obj(fields)
    &&& (match v {
        JsonValue::Obj(fields) => {
            &&& (field_of(fields@, "id"@) matches Some(JsonValue::Str(_)))
            &&& (match field_of(fields@, "name"@) {
                None => true,
                Some(JsonValue::Str(_)) => true,
                Some(_) => false,
            })
            &&& (match field_of(fields@, "main"@) {
                None => true,
                Some(JsonValue::Str(_)) => true,
                Some(_) => false,
            })
            &&& (match field_of(fields@, "activate_on"@) {
                None => true,
                Some(JsonValue::Arr(items)) => forall|j: int|
                    0 <= j < items@.len() ==> (#[trigger] items@[j]) matches JsonValue::Str(_),
                Some(_) => false,
            })
        },
        _ => false,
    })
}

/// Whether `m` records exactly what the parsed document `v` declares, with
/// an absent field read as empty.
pub open spec fn manifest_matches(m: ExtensionManifest, v: JsonValue) -> bool {
    match v {
        JsonValue::Obj(fields) => {
            &&& field_of(fields@, "id"@) == Some(JsonValue::Str(m.id))
            &&& (match field_of(fields@, "name"@) {
                Some(JsonValue::Str(n)) => m.name == n,
                None => m.name@ == Seq::<char>::empty(),
                Some(_) => false,
            })
            &&& (match field_of(fields@, "main"@) {
                Some(JsonValue::Str(x)) => m.main == x,
                None => m.main@ == Seq::<char>::empty(),
                Some(_) => false,
            })
            &&& (match field_of(fields@, "activate_on"@) {
                Some(JsonValue::Arr(items)) => m.activate_on@.len() == items@.len() && forall|
                    j: int,
                |
                    0 <= j < items@.len() ==> items@[j] == JsonValue::Str(
                        #[trigger] m.activate_on@[j],
                    ),
                None => m.activate_on@.len() == 0,
                Some(_) => false,
            })
        },
        _ => false,
    }
}

impl ExtensionManifest {
    /// Reads a manifest out of its parsed JSON document. Succeeds exactly on
    /// documents with the declared shape, and then records their fields.
    #[verifier::loop_isolation(false)]
    pub fn from_json(v: &JsonValue) -> (r: Result<ExtensionManifest, ExtensionError>)
        ensures
            match r {
                Ok(m) => manifest_shape_ok(*v) && manifest_matches(m, *v),
                Err(e) => !manifest_shape_ok(*v) && e matches ExtensionError::ManifestInvalid(_),
            },
    {
        let fields = match v {
            JsonValue::Obj(fields) => fields,
            _ => {
                return Err(
                    ExtensionError::ManifestInvalid(
                        String::from_str("manifest must be a JSON object"),
                    ),
                );
            },
        };
        let id = match lookup_field(fields, "id") {
            Some(JsonValue::Str(s)) => s.clone(),
            _ => {
                return Err(
                    ExtensionError::ManifestInvalid(
                        String::from_str("manifest id must be a string"),
                    ),
                );
            },
        };
        let name = match lookup_field(fields, "name") {
            Some(JsonValue::Str(s)) => s.clone(),
            None => String::new(),
            Some(_) => {
                return Err(
                    ExtensionError::ManifestInvalid(
                        String::from_str("manifest name must be a string"),
                    ),
                );
            },
        };
        let main = match lookup_field(fields, "main") {
            Some(JsonValue::Str(s)) => s.clone(),
            None => String::new(),
            Some(_) => {
                return Err(
                    ExtensionError::ManifestInvalid(
                        String::from_str("manifest main must be a string"),
                    ),
                );
            },
        };
        let activate_on = match lookup_field(fields, "activate_on") {
            Some(JsonValue::Arr(items)) => {
                let n = items.len();
                let mut labels: Vec<String> = Vec::new();
                let mut i: usize = 0;
                while i < n
                    invariant
                        i <= n,
                        n == items@.len(),
                        labels@.len() == i,
                        forall|j: int|
                            0 <= j < i ==> items@[j] == JsonValue::Str(#[trigger] labels@[j]),
                    decreases n - i,
                {
                    match items[i].as_str() {
                        Some(s) => {
                            let label = s.clone();
                            proof {
                                assert(items@[i as int] == JsonValue::Str(label));
                            }
                            labels.push(label);
                        },
                        None => {
                            proof {
                                assert(!((items@[i as int]) matches JsonValue::Str(_)));
                                assert(!manifest_shape_ok(*v));
                            }
                            return Err(
                                ExtensionError::ManifestInvalid(
                                    String::from_str(
                                        "manifest activate_on must be an array of strings",
                                    ),
                                ),
                            );
                        },
                    }
                    i = i + 1;
                }
                proof {
                    assert forall|j: int| 0 <= j < items@.len() implies (#[trigger] items@[j])
                        matches JsonValue::Str(_) by {
                        assert(items@[j] == JsonValue::Str(labels@[j]));
                    }
                }
                labels
            },
            None => Vec::new(),
            Some(_) => {
                return Err(
                    ExtensionError::ManifestInvalid(
                        String::from_str("manifest activate_on must be an array"),
                    ),
                );
            },
        };
        Ok(ExtensionManifest { id, name, main, activate_on })
    }
}

/// One discoverable content bundle: its directory and its manifest.
pub struct Extension {
    path: String,
    manifest: ExtensionManifest,
}

impl Extension {
    /// The manifest-declared id, as characters.
    pub closed spec fn spec_id(&self) -> Seq<char> {
        self.manifest.id@
    }

    /// The directory, as the string value it was built from.
    pub closed spec fn dir_string(&self) -> String {
        self.path
    }

    /// The manifest record.
    pub closed spec fn spec_manifest(&self) -> ExtensionManifest {
        self.manifest
    }

    /// Builds an extension from its directory and the raw bytes of the
    /// manifest file found there. Succeeds exactly when the bytes spell a
    /// JSON document of the declared shape.
    pub fn from_dir(path: &str, manifest_bytes: &[u8]) -> (r: Result<Extension, ExtensionError>)
        ensures
            match r {
                Ok(ext) => ext.dir_string()@ == path@ && (match crate::json::parsed_json(
                    manifest_bytes@,
                ) {
                    Ok(v) => manifest_shape_ok(v) && manifest_matches(ext.spec_manifest(), v),
                    Err(_) => false,
                }),
                Err(e) => match crate::json::parsed_json(manifest_bytes@) {
                    Ok(v) => !manifest_shape_ok(v) && e matches ExtensionError::ManifestInvalid(_),
                    Err(msg) => e matches ExtensionError::ManifestParse(em) && em@ == msg,
                },
            },
    {
        match crate::json::parse_json(manifest_bytes) {
            Ok(v) => match ExtensionManifest::from_json(&v) {
                Ok(manifest) => Ok(Extension { path: path.to_owned(), manifest }),
                Err(e) => Err(e),
            },
            Err(msg) => Err(ExtensionError::ManifestParse(msg)),
        }
    }

    /// The manifest-declared id.
    pub fn id(&self) -> (r: String)
        ensures
            r@ == self.spec_id(),
    {
        self.manifest.id.clone()
    }

    /// The address under which the extension's static content is served once
    /// it is active: its id under the shell's scheme.
    pub fn public_url(&self) -> (r: String)
        ensures
            r@ == "lenz"@ + "://"@ + self.spec_id(),
    {
        let id = self.id();
        custom_protocol("lenz", id.as_str())
    }

    /// The manifest.
    pub fn manifest(&self) -> (r: &ExtensionManifest)
        ensures
            *r == self.spec_manifest(),
    {
        &self.manifest
    }

    /// The extension's directory.
    pub fn dir(&self) -> (r: &String)
        ensures
            *r == self.dir_string(),
    {
        &self.path
    }

    /// Whether the manifest declares an entry script.
    pub fn has_main_script(&self) -> (r: bool)
        ensures
            r == (self.spec_manifest().main@.len() > 0),
    {
        self.manifest.main.as_str().unicode_len() > 0
    }

    /// The entry script's address: the public URL joined with the declared
    /// path, leading slashes removed; none when no script is declared.
    pub fn main_script_url(&self) -> (r: Option<String>)
        ensures
            ({
                let main = self.spec_manifest().main@;
                if main.len() > 0 {
                    r matches Some(u) && u@ == "lenz"@ + "://"@ + self.spec_id() + "/"@
                        + strip_slashes(main)
                } else {
                    r is None
                }
            }),
    {
        if self.has_main_script() {
            let base = self.public_url();
            let with_sep = base.concat("/");
            let tail = trim_leading_slashes(self.manifest.main.as_str());
            Some(with_sep.concat(tail.as_str()))
        } else {
            None
        }
    }
}

/// One activation step: an id already active leaves the mount table and the
/// active set untouched; otherwise the extension's directory is mounted
/// under its id and the extension joins the active set, both together.
pub open spec fn activate_step(
    mounts: Map<Seq<char>, String>,
    active: Map<Seq<char>, Extension>,
    ext: Extension,
) -> (Map<Seq<char>, String>, Map<Seq<char>, Extension>) {
    if active.dom().contains(ext.spec_id()) {
        (mounts, active)
    } else {
        (mounts.insert(ext.spec_id(), ext.dir_string()), active.insert(ext.spec_id(), ext))
    }
}

/// One deactivation step: an id that is not active leaves both untouched;
/// otherwise its mount and its active entry go away, both together.
pub open spec fn deactivate_step(
    mounts: Map<Seq<char>, String>,
    active: Map<Seq<char>, Extension>,
    id: Seq<char>,
) -> (Map<Seq<char>, String>, Map<Seq<char>, Extension>) {
    if !active.dom().contains(id) {
        (mounts, active)
    } else {
        (mounts.remove(id), active.remove(id))
    }
}

/// Activating an id twice is the same as activating it once: the second
/// step, with any extension declaring the same id, changes nothing.
pub proof fn lemma_activate_idempotent(
    mounts: Map<Seq<char>, String>,
    active: Map<Seq<char>, Extension>,
    first: Extension,
    second: Extension,
)
    requires
        first.spec_id() == second.spec_id(),
    ensures
        ({
            let once = activate_step(mounts, active, first);
            activate_step(once.0, once.1, second) == once
        }),
{
}

/// Deactivating an id that was never activated is a no-op.
pub proof fn lemma_deactivate_absent_noop(
    mounts: Map<Seq<char>, String>,
    active: Map<Seq<char>, Extension>,
    id: Seq<char>,
)
    requires
        !active.dom().contains(id),
    ensures
        deactivate_step(mounts, active, id) == (mounts, active),
{
}

impl Extension {
    /// Activates this extension: a no-op when its id is already active,
    /// otherwise the registry gains the mount and the host's active set
    /// gains the extension, atomically with respect to each other.
    pub fn activate(self, reg: &mut Registry, host: &mut ExtensionHost)
        requires
            old(reg).inv(),
            old(host).inv(),
        ensures
            final(reg).inv(),
            final(host).inv(),
            (final(reg).mounts_map(), final(host).active_map()) == activate_step(
                old(reg).mounts_map(),
                old(host).active_map(),
                self,
            ),
            final(reg).windows_map() == old(reg).windows_map(),
            final(reg).main_id() == old(reg).main_id(),
            final(reg).handler_map() == old(reg).handler_map(),
            final(reg).imports_map() == old(reg).imports_map(),
    {
        let id = self.id();
        if host.has_extension(id.as_str()) {
            return;
        }
        let dir = self.path.clone();
        reg.add_mount(id, dir);
        host.add_extension(self);
    }

    /// Deactivates this extension's id: a no-op when it is not active,
    /// otherwise its mount and its active entry go away together.
    pub fn deactivate(self, reg: &mut Registry, host: &mut ExtensionHost)
        requires
            old(reg).inv(),
            old(host).inv(),
        ensures
            final(reg).inv(),
            final(host).inv(),
            (final(reg).mounts_map(), final(host).active_map()) == deactivate_step(
                old(reg).mounts_map(),
                old(host).active_map(),
                self.spec_id(),
            ),
            final(reg).windows_map() == old(reg).windows_map(),
            final(reg).main_id() == old(reg).main_id(),
            final(reg).handler_map() == old(reg).handler_map(),
            final(reg).imports_map() == old(reg).imports_map(),
    {
        let id = self.id();
        if !host.has_extension(id.as_str()) {
            return;
        }
        reg.remove_mount(id.as_str());
        host.remove_extension(id.as_str());
    }
}

} // verus!
