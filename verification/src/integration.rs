//! Integration plugins: their metadata, the editor contributions they
//! declare, and the registry that answers queries over them.
use vstd::prelude::*;
use vstd::string::StringSliceAdditionalSpecFns;

use crate::seqs::{first_where, is_first, lemma_first_where_found, lemma_first_where_none};

verus! {

#[verifier::external_type_specification]
#[verifier::external_body]
pub struct ExTomlValue(toml::Value);

/// Errors that can occur during plugin integration operations.
#[derive(Debug)]
pub enum IntegrationError {
    IoError(String),
    ParseError(String),
    ValidationError(String),
}

pub open spec fn io_error_prefix() -> Seq<char> {
    seq!['I', 'O', ' ', 'e', 'r', 'r', 'o', 'r', ':', ' ']
}

pub open spec fn parse_error_prefix() -> Seq<char> {
    seq!['P', 'a', 'r', 's', 'e', ' ', 'e', 'r', 'r', 'o', 'r', ':', ' ']
}

pub open spec fn validation_error_prefix() -> Seq<char> {
    seq!['V', 'a', 'l', 'i', 'd', 'a', 't', 'i', 'o', 'n', ' ', 'e', 'r', 'r', 'o', 'r', ':', ' ']
}

impl IntegrationError {
    /// The message shown for the error.
    pub fn message(&self) -> (r: String)
        ensures
            r@ == match self {
                IntegrationError::IoError(m) => io_error_prefix() + m@,
                IntegrationError::ParseError(m) => parse_error_prefix() + m@,
                IntegrationError::ValidationError(m) => validation_error_prefix() + m@,
            },
    {
        proof {
            reveal_strlit("IO error: ");
            reveal_strlit("Parse error: ");
            reveal_strlit("Validation error: ");
        }
        match self {
            IntegrationError::IoError(m) => {
                let mut s = String::from_str("IO error: ");
                assert(s@ =~= io_error_prefix());
                s.append(m.as_str());
                s
            },
            IntegrationError::ParseError(m) => {
                let mut s = String::from_str("Parse error: ");
                assert(s@ =~= parse_error_prefix());
                s.append(m.as_str());
                s
            },
            IntegrationError::ValidationError(m) => {
                let mut s = String::from_str("Validation error: ");
                assert(s@ =~= validation_error_prefix());
                s.append(m.as_str());
                s
            },
        }
    }
}

/// The type of a plugin property.
#[derive(Debug, Clone, Copy, PartialEq, Eq, Structural)]
pub enum PropertyType {
    String,
    Int,
    Float,
    Bool,
    FilePath,
    Enum,
    Point,
    Color,
}

/// The property type used when a property declares none.
pub fn default_property_type() -> (r: PropertyType)
    ensures
        r == PropertyType::String,
{
    PropertyType::String
}

/// Basic information about a plugin.
#[derive(Debug)]
pub struct PluginInfo {
    pub name: String,
    pub version: String,
    pub description: String,
    /// Entity types the plugin's properties apply to; none means all.
    pub applies_to: Vec<String>,
}

/// A property contributed by a plugin. The bounds are the IEEE-754 bit
/// patterns of `f64` values, and the default is kept as TOML.
#[derive(Debug)]
pub struct PropertyDef {
    pub name: String,
    pub description: Option<String>,
    pub required: bool,
    pub prop_type: PropertyType,
    pub min: Option<u64>,
    pub max: Option<u64>,
    pub extensions: Option<Vec<String>>,
    pub variants: Option<Vec<String>>,
    pub default: Option<toml::Value>,
}

/// A UI contribution declared in plugin metadata.
#[derive(Debug)]
pub enum ContributionDef {
    Panel { name: String },
    MenuItem { path: String },
    InspectorSection { name: String },
    ToolbarButton { name: String },
    ContextMenu { target: String, name: String },
}

/// Editor-specific metadata of a plugin.
#[derive(Debug)]
pub struct EditorMeta {
    pub inspector_section: Option<String>,
    pub file_extensions: Vec<String>,
    pub contributions: Vec<ContributionDef>,
}

/// Top-level plugin metadata.
#[derive(Debug)]
pub struct PluginMeta {
    pub plugin: PluginInfo,
    pub properties: Vec<PropertyDef>,
    pub editor: EditorMeta,
}

/// Target of a context menu contribution.
#[derive(Debug, Clone, Copy, PartialEq, Eq, Structural)]
pub enum ContextMenuTarget {
    Entity,
    Layer,
}

/// A runtime UI contribution for the editor.
#[derive(Debug)]
pub enum EditorExtension {
    Panel { name: String },
    MenuItem { path: String },
    InspectorSection { name: String },
    ToolbarButton { name: String },
    ContextMenu { target: ContextMenuTarget, name: String },
}

/// What `str::to_lowercase` gives for a text (Unicode lowercase mapping).
pub uninterp spec fn lowercase_of(s: Seq<char>) -> Seq<char>;

/// Calls `str::to_lowercase`; its result is named, not described.
#[verifier::external_body]
fn to_lowercase(s: &str) -> (r: String)
    ensures
        r@ == lowercase_of(s@),
{
    s.to_lowercase()
}

pub open spec fn entity_word() -> Seq<char> {
    seq!['e', 'n', 't', 'i', 't', 'y']
}

pub open spec fn layer_word() -> Seq<char> {
    seq!['l', 'a', 'y', 'e', 'r']
}

/// The context menu target named by a lowercased target text.
pub open spec fn target_of(lower: Seq<char>) -> Option<ContextMenuTarget> {
    if lower == entity_word() {
        Some(ContextMenuTarget::Entity)
    } else if lower == layer_word() {
        Some(ContextMenuTarget::Layer)
    } else {
        None
    }
}

/// The extension a definition becomes, given its target text lowercased:
/// every kind converts as it is, a context menu only for the targets
/// `entity` and `layer`.
pub open spec fn extension_of(def: ContributionDef, lower_target: Seq<char>) -> Option<EditorExtension> {
    match def {
        ContributionDef::Panel { name } => Some(EditorExtension::Panel { name }),
        ContributionDef::MenuItem { path } => Some(EditorExtension::MenuItem { path }),
        ContributionDef::InspectorSection { name } => Some(EditorExtension::InspectorSection { name }),
        ContributionDef::ToolbarButton { name } => Some(EditorExtension::ToolbarButton { name }),
        ContributionDef::ContextMenu { name, .. } => match target_of(lower_target) {
            Some(target) => Some(EditorExtension::ContextMenu { target, name }),
            None => None,
        },
    }
}

/// The target text of a definition (empty for all but context menus).
pub open spec fn def_target(def: ContributionDef) -> Seq<char> {
    match def {
        ContributionDef::ContextMenu { target, .. } => target@,
        _ => seq![],
    }
}

/// The extension a definition becomes.
pub open spec fn extension_from_def(def: ContributionDef) -> Option<EditorExtension> {
    extension_of(def, lowercase_of(def_target(def)))
}

/// The context menu target named by the lowercased text of a target.
pub fn target_from_lowercase(lower: &String) -> (r: Option<ContextMenuTarget>)
    ensures
        r == target_of(lower@),
{
    let entity = String::from_str("entity");
    let layer = String::from_str("layer");
    proof {
        reveal_strlit("entity");
        reveal_strlit("layer");
        assert(entity@ =~= entity_word());
        assert(layer@ =~= layer_word());
    }
    if *lower == entity {
        Some(ContextMenuTarget::Entity)
    } else if *lower == layer {
        Some(ContextMenuTarget::Layer)
    } else {
        None
    }
}

impl EditorExtension {
    /// Converts a metadata contribution into a runtime editor extension;
    /// context menus whose target (in any case) is neither `entity` nor
    /// `layer` give nothing.
    pub fn from_def(def: ContributionDef) -> (r: Option<EditorExtension>)
        ensures
            r == extension_from_def(def),
    {
        match def {
            ContributionDef::Panel { name } => Some(EditorExtension::Panel { name }),
            ContributionDef::MenuItem { path } => Some(EditorExtension::MenuItem { path }),
            ContributionDef::InspectorSection { name } => Some(EditorExtension::InspectorSection { name }),
            ContributionDef::ToolbarButton { name } => Some(EditorExtension::ToolbarButton { name }),
            ContributionDef::ContextMenu { target, name } => {
                let lower = to_lowercase(target.as_str());
                match target_from_lowercase(&lower) {
                    Some(t) => Some(EditorExtension::ContextMenu { target: t, name }),
                    None => None,
                }
            },
        }
    }
}

impl ContributionDef {
    /// A copy of this definition.
    pub fn duplicate(&self) -> (r: ContributionDef)
        ensures
            r == *self,
    {
        match self {
            ContributionDef::Panel { name } => ContributionDef::Panel { name: name.clone() },
            ContributionDef::MenuItem { path } => ContributionDef::MenuItem { path: path.clone() },
            ContributionDef::InspectorSection { name } => ContributionDef::InspectorSection { name: name.clone() },
            ContributionDef::ToolbarButton { name } => ContributionDef::ToolbarButton { name: name.clone() },
            ContributionDef::ContextMenu { target, name } => ContributionDef::ContextMenu {
                target: target.clone(),
                name: name.clone(),
            },
        }
    }
}

// ---------------------------------------------------------------------------
// Case-insensitive ASCII comparison
// ---------------------------------------------------------------------------

pub open spec fn ascii_lower(b: u8) -> u8 {
    if 65 <= b <= 90 {
        (b + 32) as u8
    } else {
        b
    }
}

/// `str::eq_ignore_ascii_case`: same length, and bytes equal once ASCII
/// letters are lowercased.
pub open spec fn eq_ignore_ascii_case(a: Seq<u8>, b: Seq<u8>) -> bool {
    &&& a.len() == b.len()
    &&& forall|i: int| 0 <= i < a.len() ==> ascii_lower(#[trigger] a[i]) == ascii_lower(b[i])
}

fn ascii_lower_byte(b: u8) -> (r: u8)
    ensures
        r == ascii_lower(b),
{
    if 65 <= b && b <= 90 {
        b + 32
    } else {
        b
    }
}

/// Compares two texts ignoring ASCII case.
pub fn str_eq_ignore_ascii_case(a: &str, b: &str) -> (r: bool)
    ensures
        r == eq_ignore_ascii_case(a.spec_bytes(), b.spec_bytes()),
{
    let x = a.as_bytes();
    let y = b.as_bytes();
    if x.len() != y.len() {
        return false;
    }
    let mut i: usize = 0;
    while i < x.len()
        invariant
            i <= x@.len(),
            x@.len() == y@.len(),
            x@ == a.spec_bytes(),
            y@ == b.spec_bytes(),
            forall|j: int| 0 <= j < i ==> ascii_lower(#[trigger] x@[j]) == ascii_lower(y@[j]),
        decreases x.len() - i,
    {
        if ascii_lower_byte(x[i]) != ascii_lower_byte(y[i]) {
            return false;
        }
        i = i + 1;
    }
    true
}

fn contains_string(v: &Vec<String>, s: &String) -> (r: bool)
    ensures
        r == strings_view(v@).contains(s@),
{
    let mut i: usize = 0;
    while i < v.len()
        invariant
            i <= v.len(),
            forall|j: int| 0 <= j < i ==> v@[j]@ != s@,
        decreases v.len() - i,
    {
        if v[i] == *s {
            assert(strings_view(v@)[i as int] == s@);
            return true;
        }
        i = i + 1;
    }
    false
}

/// `dedup` keeps exactly the elements of its input, each once.
pub proof fn law_dedup_distinct_and_complete(s: Seq<Seq<char>>)
    ensures
        dedup(s).no_duplicates(),
        forall|x: Seq<char>| #[trigger] dedup(s).contains(x) <==> s.contains(x),
    decreases s.len(),
{
    if s.len() > 0 {
        let d = s.drop_last();
        law_dedup_distinct_and_complete(d);
        assert forall|x: Seq<char>| #[trigger] dedup(s).contains(x) <==> s.contains(x) by {
            if s.contains(x) {
                let i = choose|i: int| 0 <= i < s.len() && s[i] == x;
                if i < s.len() - 1 {
                    assert(d[i] == x);
                    assert(d.contains(x));
                }
            }
            if d.contains(x) {
                let i = choose|i: int| 0 <= i < d.len() && d[i] == x;
                assert(s[i] == x);
            }
            if dedup(s).contains(x) && !dedup(d).contains(x) {
                assert(x == s.last());
                assert(s[s.len() - 1] == x);
            }
            if dedup(d).contains(x) {
                let i = choose|i: int| 0 <= i < dedup(d).len() && dedup(d)[i] == x;
                if !dedup(d).contains(s.last()) {
                    assert(dedup(s)[i] == x);
                }
            }
            if x == s.last() && !dedup(d).contains(x) {
                assert(dedup(s)[dedup(d).len() as int] == x);
            }
        }
    }
}

/// The file extensions the registry reports occur once each, and are
/// exactly the extensions its plugins declare.
pub proof fn law_file_extensions_distinct(plugins: Seq<PluginMeta>)
    ensures
        dedup(all_extensions(plugins)).no_duplicates(),
        forall|x: Seq<char>| #[trigger] dedup(all_extensions(plugins)).contains(x) <==> all_extensions(plugins).contains(x),
{
    law_dedup_distinct_and_complete(all_extensions(plugins));
}

// ---------------------------------------------------------------------------
// The registry
// ---------------------------------------------------------------------------

/// The plugin's properties apply to entity type `t`: it names no types, or
/// names `t` ignoring ASCII case.
pub open spec fn applies_to_type(info: PluginInfo, t: Seq<u8>) -> bool {
    info.applies_to@.len() == 0 || exists|i: int|
        0 <= i < info.applies_to@.len() && eq_ignore_ascii_case(
            utf8_of((#[trigger] info.applies_to@[i])@),
            t,
        )
}

/// The UTF-8 bytes of a text.
pub open spec fn utf8_of(s: Seq<char>) -> Seq<u8> {
    vstd::utf8::encode_utf8(s)
}

/// The properties for entity type `t`: each applying plugin's properties,
/// paired with its information, plugin after plugin.
pub open spec fn entity_properties(plugins: Seq<PluginMeta>, t: Seq<u8>) -> Seq<(PluginInfo, PropertyDef)>
    decreases plugins.len(),
{
    if plugins.len() == 0 {
        seq![]
    } else {
        let m = plugins.last();
        let rest = entity_properties(plugins.drop_last(), t);
        if applies_to_type(m.plugin, t) {
            rest + Seq::new(m.properties@.len(), |k: int| (m.plugin, m.properties@[k]))
        } else {
            rest
        }
    }
}

/// The extensions of all plugins, plugin after plugin.
pub open spec fn all_extensions(plugins: Seq<PluginMeta>) -> Seq<Seq<char>>
    decreases plugins.len(),
{
    if plugins.len() == 0 {
        seq![]
    } else {
        all_extensions(plugins.drop_last()) + strings_view(plugins.last().editor.file_extensions@)
    }
}

pub open spec fn strings_view(s: Seq<String>) -> Seq<Seq<char>> {
    Seq::new(s.len(), |i: int| s[i]@)
}

/// The elements in order of first appearance, each once.
pub open spec fn dedup(s: Seq<Seq<char>>) -> Seq<Seq<char>>
    decreases s.len(),
{
    if s.len() == 0 {
        seq![]
    } else {
        let d = dedup(s.drop_last());
        if d.contains(s.last()) {
            d
        } else {
            d.push(s.last())
        }
    }
}

/// The extensions that the definitions become, in order.
pub open spec fn extensions_of(defs: Seq<ContributionDef>) -> Seq<EditorExtension>
    decreases defs.len(),
{
    if defs.len() == 0 {
        seq![]
    } else {
        let rest = extensions_of(defs.drop_last());
        match extension_from_def(defs.last()) {
            Some(e) => rest.push(e),
            None => rest,
        }
    }
}

/// The predicate "this plugin is called `n`".
pub open spec fn plugin_named(n: Seq<char>) -> spec_fn(PluginMeta) -> bool {
    |m: PluginMeta| m.plugin.name@ == n
}

/// Registry of all loaded integration plugins and their contributions.
#[derive(Debug)]
pub struct IntegrationRegistry {
    plugins: Vec<PluginMeta>,
    contributions: Vec<EditorExtension>,
}

impl IntegrationRegistry {
    /// The registered plugins, in registration order.
    pub closed spec fn plugins(&self) -> Seq<PluginMeta> {
        self.plugins@
    }

    /// The UI contributions, in registration order.
    pub closed spec fn contributions(&self) -> Seq<EditorExtension> {
        self.contributions@
    }

    /// An empty registry.
    pub fn new() -> (r: IntegrationRegistry)
        ensures
            r.plugins().len() == 0,
            r.contributions().len() == 0,
    {
        IntegrationRegistry { plugins: Vec::new(), contributions: Vec::new() }
    }

    /// Registers a plugin and the UI contributions it declares.
    pub fn register_plugin(&mut self, meta: PluginMeta)
        ensures
            final(self).plugins() == old(self).plugins().push(meta),
            final(self).contributions() == old(self).contributions() + extensions_of(meta.editor.contributions@),
    {
        let ghost defs = meta.editor.contributions@;
        let ghost base = self.contributions@;
        let mut i: usize = 0;
        while i < meta.editor.contributions.len()
            invariant
                i <= meta.editor.contributions.len(),
                defs == meta.editor.contributions@,
                self.plugins@ == old(self).plugins@,
                self.contributions@ == base + extensions_of(defs.take(i as int)),
            decreases meta.editor.contributions.len() - i,
        {
            let def = meta.editor.contributions[i].duplicate();
            proof {
                assert(defs.take(i + 1).drop_last() =~= defs.take(i as int));
                assert(defs.take(i + 1).last() == def);
            }
            match EditorExtension::from_def(def) {
                Some(ext) => {
                    let ghost before = self.contributions@;
                    self.contributions.push(ext);
                    assert(self.contributions@ =~= base + extensions_of(defs.take(i + 1)));
                },
                None => {},
            }
            i = i + 1;
        }
        assert(defs.take(i as int) =~= defs);
        self.plugins.push(meta);
    }

    /// The properties that apply to entity type `entity_type`, with the
    /// information of the plugin that contributes each.
    pub fn properties_for_entity(&self, entity_type: &str) -> (r: Vec<(&PluginInfo, &PropertyDef)>)
        ensures
            r@.len() == entity_properties(self.plugins(), entity_type.spec_bytes()).len(),
            forall|i: int|
                0 <= i < r@.len() ==> (*(#[trigger] r@[i]).0, *r@[i].1) == entity_properties(
                    self.plugins(),
                    entity_type.spec_bytes(),
                )[i],
    {
        let ghost t = entity_type.spec_bytes();
        assert(self.plugins@.take(0) =~= Seq::<PluginMeta>::empty());
        let mut result: Vec<(&PluginInfo, &PropertyDef)> = Vec::new();
        let mut p: usize = 0;
        while p < self.plugins.len()
            invariant
                p <= self.plugins.len(),
                t == entity_type.spec_bytes(),
                result@.len() == entity_properties(self.plugins@.take(p as int), t).len(),
                forall|i: int|
                    0 <= i < result@.len() ==> (*(#[trigger] result@[i]).0, *result@[i].1) == entity_properties(
                        self.plugins@.take(p as int),
                        t,
                    )[i],
            decreases self.plugins.len() - p,
        {
            let meta = &self.plugins[p];
            let applies = self.plugin_applies(meta, entity_type);
            proof {
                assert(self.plugins@.take(p + 1).drop_last() =~= self.plugins@.take(p as int));
                assert(self.plugins@.take(p + 1).last() == *meta);
            }
            if applies {
                let ghost base = entity_properties(self.plugins@.take(p as int), t);
                let ghost n0 = result@.len();
                let mut k: usize = 0;
                while k < meta.properties.len()
                    invariant
                        k <= meta.properties.len(),
                        result@.len() == n0 + k,
                        n0 == base.len(),
                        forall|i: int| 0 <= i < n0 ==> (*(#[trigger] result@[i]).0, *result@[i].1) == base[i],
                        forall|i: int|
                            n0 <= i < n0 + k ==> (*(#[trigger] result@[i]).0, *result@[i].1) == (
                                meta.plugin,
                                meta.properties@[i - n0],
                            ),
                    decreases meta.properties.len() - k,
                {
                    result.push((&meta.plugin, &meta.properties[k]));
                    k = k + 1;
                }
                proof {
                    let full = entity_properties(self.plugins@.take(p + 1), t);
                    assert(full =~= base + Seq::new(meta.properties@.len(), |k: int| (meta.plugin, meta.properties@[k])));
                }
            }
            p = p + 1;
        }
        assert(self.plugins@.take(p as int) =~= self.plugins@);
        result
    }

    /// The inspector section of the first plugin called `plugin_name`, if
    /// that plugin sets one.
    pub fn inspector_section(&self, plugin_name: &str) -> (r: Option<&str>)
        ensures
            match first_where(self.plugins(), plugin_named(plugin_name@)) {
                Some(i) => match self.plugins()[i].editor.inspector_section {
                    Some(sec) => r matches Some(x) && x@ == sec@,
                    None => r is None,
                },
                None => r is None,
            },
    {
        let name = String::from_str(plugin_name);
        let mut i: usize = 0;
        while i < self.plugins.len()
            invariant
                i <= self.plugins.len(),
                name@ == plugin_name@,
                forall|j: int| 0 <= j < i ==> !plugin_named(plugin_name@)(#[trigger] self.plugins@[j]),
            decreases self.plugins.len() - i,
        {
            if self.plugins[i].plugin.name == name {
                proof {
                    lemma_first_where_found(self.plugins@, plugin_named(plugin_name@), i as int);
                }
                return match &self.plugins[i].editor.inspector_section {
                    Some(sec) => Some(sec.as_str()),
                    None => None,
                };
            }
            i = i + 1;
        }
        proof {
            lemma_first_where_none(self.plugins@, plugin_named(plugin_name@));
        }
        None
    }

    /// The file extensions of all plugins, each once, in order of first
    /// appearance.
    pub fn all_file_extensions(&self) -> (r: Vec<String>)
        ensures
            strings_view(r@) == dedup(all_extensions(self.plugins())),
    {
        let mut exts: Vec<String> = Vec::new();
        let mut p: usize = 0;
        assert(strings_view(exts@) =~= dedup(all_extensions(self.plugins@.take(0))));
        while p < self.plugins.len()
            invariant
                p <= self.plugins.len(),
                strings_view(exts@) == dedup(all_extensions(self.plugins@.take(p as int))),
            decreases self.plugins.len() - p,
        {
            let meta = &self.plugins[p];
            let ghost before = all_extensions(self.plugins@.take(p as int));
            let ghost mine = strings_view(meta.editor.file_extensions@);
            proof {
                assert(self.plugins@.take(p + 1).drop_last() =~= self.plugins@.take(p as int));
                assert(self.plugins@.take(p + 1).last() == *meta);
                assert(before + mine.take(0) =~= before);
            }
            let mut k: usize = 0;
            while k < meta.editor.file_extensions.len()
                invariant
                    k <= meta.editor.file_extensions.len(),
                    mine == strings_view(meta.editor.file_extensions@),
                    strings_view(exts@) == dedup(before + mine.take(k as int)),
                decreases meta.editor.file_extensions.len() - k,
            {
                let ext = &meta.editor.file_extensions[k];
                let seen = contains_string(&exts, ext);
                proof {
                    assert((before + mine.take(k + 1)).drop_last() =~= before + mine.take(k as int));
                    assert((before + mine.take(k + 1)).last() == ext@);
                }
                if !seen {
                    let ghost old_view = strings_view(exts@);
                    exts.push(ext.clone());
                    assert(strings_view(exts@) =~= old_view.push(ext@));
                }
                k = k + 1;
            }
            proof {
                assert(mine.take(k as int) =~= mine);
            }
            p = p + 1;
        }
        assert(self.plugins@.take(p as int) =~= self.plugins@);
        exts
    }

    /// All UI contributions (panels, menu items, toolbar buttons, ...).
    pub fn ui_contributions(&self) -> (r: &[EditorExtension])
        ensures
            r@ == self.contributions(),
    {
        self.contributions.as_slice()
    }

    fn plugin_applies(&self, meta: &PluginMeta, entity_type: &str) -> (r: bool)
        ensures
            r == applies_to_type(meta.plugin, entity_type.spec_bytes()),
    {
        let n = meta.plugin.applies_to.len();
        if n == 0 {
            return true;
        }
        let mut i: usize = 0;
        while i < n
            invariant
                i <= n,
                n == meta.plugin.applies_to@.len(),
                forall|j: int|
                    0 <= j < i ==> !eq_ignore_ascii_case(
                        utf8_of((#[trigger] meta.plugin.applies_to@[j])@),
                        entity_type.spec_bytes(),
                    ),
            decreases n - i,
        {
            let a = &meta.plugin.applies_to[i];
            if str_eq_ignore_ascii_case(a.as_str(), entity_type) {
                return true;
            }
            i = i + 1;
        }
        false
    }
}

impl Default for IntegrationRegistry {
    fn default() -> (r: Self)
        ensures
            r.plugins().len() == 0,
            r.contributions().len() == 0,
    {
        IntegrationRegistry::new()
    }
}

} // verus!
