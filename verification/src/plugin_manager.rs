//! The plugin manager: where plugin metadata files live, and the plugins
//! loaded from them, one per name.
use vstd::prelude::*;

use crate::external_editor::Platform;
use crate::integration::{IntegrationError, PluginMeta};
use crate::paths::{join_admits, join_path};
use crate::text::str_eq;

verus! {

/// The environment variables the plugins directory is found from.
#[derive(Debug)]
pub struct PluginDirEnv {
    pub xdg_config_home: Option<String>,
    pub home: Option<String>,
    pub appdata: Option<String>,
}

/// Which directory the plugins are looked for in.
pub open spec fn plugins_dir_base(env: PluginDirEnv, platform: Platform) -> Option<Seq<char>> {
    match env.xdg_config_home {
        Some(x) => Some(x@),
        None => match platform {
            Platform::Linux | Platform::MacOs => match env.home {
                Some(h) => Some(h@),
                None => None,
            },
            Platform::Windows => match env.appdata {
                Some(a) => Some(a@),
                None => None,
            },
            Platform::Other => None,
        },
    }
}

/// Where under its base directory the plugins directory lies.
pub open spec fn plugins_dir_suffix(env: PluginDirEnv, platform: Platform) -> Seq<char> {
    match env.xdg_config_home {
        Some(_) => "bevy_map_editor/plugins"@,
        None => match platform {
            Platform::Linux => ".config/bevy_map_editor/plugins"@,
            Platform::MacOs => "Library/Application Support/bevy_map_editor/plugins"@,
            _ => "bevy_map_editor/plugins"@,
        },
    }
}

/// The plugins directory: under `XDG_CONFIG_HOME`; else, by platform, under
/// `HOME` (Linux, macOS) or `APPDATA` (Windows); else `.bevy_map/plugins`.
/// It is always found.
pub fn find_plugins_dir(env: &PluginDirEnv, platform: Platform) -> (r: Option<String>)
    ensures
        r is Some,
        plugins_dir_base(*env, platform) is None ==> (r matches Some(d) && d@ == ".bevy_map/plugins"@),
        plugins_dir_base(*env, platform) matches Some(b) ==> (r matches Some(d) && join_admits(
            b,
            plugins_dir_suffix(*env, platform),
            d@,
        )),
{
    if let Some(xdg) = &env.xdg_config_home {
        return Some(join_path(xdg.as_str(), "bevy_map_editor/plugins"));
    }
    match platform {
        Platform::Linux => {
            if let Some(home) = &env.home {
                return Some(join_path(home.as_str(), ".config/bevy_map_editor/plugins"));
            }
        },
        Platform::MacOs => {
            if let Some(home) = &env.home {
                return Some(join_path(home.as_str(), "Library/Application Support/bevy_map_editor/plugins"));
            }
        },
        Platform::Windows => {
            if let Some(appdata) = &env.appdata {
                return Some(join_path(appdata.as_str(), "bevy_map_editor/plugins"));
            }
        },
        Platform::Other => {},
    }
    Some(".bevy_map/plugins".to_string())
}

/// The plugins, after storing `m`: it replaces the plugin of the same name,
/// or comes last.
pub open spec fn store_plugin(s: Seq<PluginMeta>, m: PluginMeta) -> Seq<PluginMeta> {
    if exists|i: int| 0 <= i < s.len() && s[i].plugin.name@ == m.plugin.name@ {
        let i = choose|i: int| 0 <= i < s.len() && s[i].plugin.name@ == m.plugin.name@;
        s.update(i, m)
    } else {
        s.push(m)
    }
}

/// The plugins after storing each of `ms` in turn.
pub open spec fn store_all(s: Seq<PluginMeta>, ms: Seq<PluginMeta>) -> Seq<PluginMeta>
    decreases ms.len(),
{
    if ms.len() == 0 {
        s
    } else {
        store_plugin(store_all(s, ms.drop_last()), ms.last())
    }
}

/// No two plugins share a name.
pub open spec fn distinct_plugin_names(s: Seq<PluginMeta>) -> bool {
    forall|i: int, j: int| 0 <= i < j < s.len() ==> s[i].plugin.name@ != s[j].plugin.name@
}

/// Storing a plugin keeps the names distinct.
pub proof fn law_store_keeps_names_distinct(s: Seq<PluginMeta>, m: PluginMeta)
    requires
        distinct_plugin_names(s),
    ensures
        distinct_plugin_names(store_plugin(s, m)),
        exists|i: int| 0 <= i < store_plugin(s, m).len() && store_plugin(s, m)[i] == m,
{
    if exists|i: int| 0 <= i < s.len() && s[i].plugin.name@ == m.plugin.name@ {
        let i = choose|i: int| 0 <= i < s.len() && s[i].plugin.name@ == m.plugin.name@;
        assert(store_plugin(s, m)[i] == m);
    } else {
        assert(store_plugin(s, m)[s.len() as int] == m);
    }
}

/// `ms[i]` is the last of `ms` with its plugin name.
pub open spec fn last_of_its_name(ms: Seq<PluginMeta>, i: int) -> bool {
    &&& 0 <= i < ms.len()
    &&& forall|j: int| i < j < ms.len() ==> ms[j].plugin.name@ != ms[i].plugin.name@
}

proof fn lemma_store_shape(prev: Seq<PluginMeta>, m: PluginMeta) -> (idx: int)
    requires
        distinct_plugin_names(prev),
    ensures
        0 <= idx <= prev.len(),
        store_plugin(prev, m).len() == if idx < prev.len() {
            prev.len() as int
        } else {
            prev.len() + 1int
        },
        store_plugin(prev, m)[idx] == m,
        forall|k: int|
            0 <= k < prev.len() && k != idx ==> store_plugin(prev, m)[k] == prev[k]
                && prev[k].plugin.name@ != m.plugin.name@,
{
    if exists|x: int| 0 <= x < prev.len() && prev[x].plugin.name@ == m.plugin.name@ {
        let x = choose|x: int| 0 <= x < prev.len() && prev[x].plugin.name@ == m.plugin.name@;
        assert forall|k: int| 0 <= k < prev.len() && k != x implies store_plugin(prev, m)[k] == prev[k]
            && prev[k].plugin.name@ != m.plugin.name@ by {
            if k < x {
                assert(prev[k].plugin.name@ != prev[x].plugin.name@);
            } else {
                assert(prev[x].plugin.name@ != prev[k].plugin.name@);
            }
        }
        x
    } else {
        prev.len() as int
    }
}

/// Storing files in turn keeps, for every plugin name, the last file of
/// that name, and nothing else: no two kept plugins share a name.
pub proof fn law_last_file_wins(ms: Seq<PluginMeta>)
    ensures
        distinct_plugin_names(store_all(Seq::empty(), ms)),
        forall|i: int| last_of_its_name(ms, i) ==> store_all(Seq::empty(), ms).contains(#[trigger] ms[i]),
        forall|k: int|
            0 <= k < store_all(Seq::empty(), ms).len() ==> exists|i: int|
                last_of_its_name(ms, i) && ms[i] == #[trigger] store_all(Seq::empty(), ms)[k],
    decreases ms.len(),
{
    if ms.len() > 0 {
        let d = ms.drop_last();
        let m = ms.last();
        let prev = store_all(Seq::empty(), d);
        law_last_file_wins(d);
        law_store_keeps_names_distinct(prev, m);
        let idx = lemma_store_shape(prev, m);
        let cur = store_plugin(prev, m);
        assert(cur == store_all(Seq::empty(), ms));
        assert forall|i: int| last_of_its_name(ms, i) implies cur.contains(#[trigger] ms[i]) by {
            if i == ms.len() - 1 {
                assert(cur[idx] == ms[i]);
            } else {
                assert(last_of_its_name(d, i));
                assert(d[i] == ms[i]);
                assert(prev.contains(d[i]));
                let k = choose|k: int| 0 <= k < prev.len() && prev[k] == d[i];
                assert(ms[i].plugin.name@ != m.plugin.name@);
                assert(k != idx);
                assert(cur[k] == prev[k]);
            }
        }
        assert forall|k: int| 0 <= k < cur.len() implies exists|i: int|
            last_of_its_name(ms, i) && ms[i] == #[trigger] cur[k] by {
            if k == idx {
                assert(last_of_its_name(ms, ms.len() - 1));
                assert(ms[ms.len() - 1] == cur[k]);
            } else {
                assert(k < prev.len());
                assert(cur[k] == prev[k]);
                assert(prev[k].plugin.name@ != m.plugin.name@);
                let i = choose|i: int| last_of_its_name(d, i) && d[i] == #[trigger] prev[k];
                assert forall|j: int| i < j < ms.len() implies ms[j].plugin.name@ != ms[i].plugin.name@ by {
                    if j < ms.len() - 1 {
                        assert(ms[j] == d[j]);
                    }
                }
                assert(last_of_its_name(ms, i));
                assert(ms[i] == cur[k]);
            }
        }
    }
}

/// Discovers and keeps plugin metadata, one plugin per name.
#[derive(Debug)]
pub struct PluginManager {
    plugins_dir: Option<String>,
    plugins: Vec<PluginMeta>,
}

impl PluginManager {
    #[verifier::type_invariant]
    spec fn inv(self) -> bool {
        distinct_plugin_names(self.plugins@)
    }

    /// The loaded plugins.
    pub closed spec fn plugins_view(&self) -> Seq<PluginMeta> {
        self.plugins@
    }

    /// The directory plugins are loaded from.
    pub closed spec fn dir(&self) -> Option<Seq<char>> {
        match self.plugins_dir {
            Some(d) => Some(d@),
            None => None,
        }
    }

    /// A manager of `plugins_dir` with no plugins loaded.
    pub fn with_dir(plugins_dir: Option<String>) -> (r: Self)
        ensures
            r.plugins_view().len() == 0,
            r.dir() == (match plugins_dir {
                Some(d) => Some(d@),
                None => None::<Seq<char>>,
            }),
    {
        PluginManager { plugins_dir, plugins: Vec::new() }
    }

    /// A manager of the platform's default plugins directory.
    pub fn from_default_config(env: &PluginDirEnv, platform: Platform) -> (r: Result<Self, IntegrationError>)
        ensures
            r matches Ok(m) && m.plugins_view().len() == 0 && m.dir() is Some,
    {
        let dir = find_plugins_dir(env, platform);
        Ok(PluginManager::with_dir(dir))
    }

    /// The directory plugins are loaded from.
    pub fn plugins_dir(&self) -> (r: Option<&String>)
        ensures
            match r {
                Some(d) => self.dir() == Some(d@),
                None => self.dir() is None,
            },
    {
        self.plugins_dir.as_ref()
    }

    /// The loaded plugins.
    pub fn plugins(&self) -> (r: &[PluginMeta])
        ensures
            r@ == self.plugins_view(),
    {
        self.plugins.as_slice()
    }

    /// The loaded plugins, handed over.
    pub fn into_plugins(self) -> (r: Vec<PluginMeta>)
        ensures
            r@ == self.plugins_view(),
    {
        let PluginManager { plugins_dir: _, plugins } = self;
        plugins
    }

    fn position_of(&self, name: &str) -> (r: Option<usize>)
        ensures
            match r {
                Some(i) => i < self.plugins@.len() && self.plugins@[i as int].plugin.name@ == name@,
                None => forall|i: int| 0 <= i < self.plugins@.len() ==> self.plugins@[i].plugin.name@ != name@,
            },
    {
        let mut i: usize = 0;
        while i < self.plugins.len()
            invariant
                i <= self.plugins@.len(),
                forall|j: int| 0 <= j < i ==> self.plugins@[j].plugin.name@ != name@,
            decreases self.plugins@.len() - i,
        {
            if str_eq(self.plugins[i].plugin.name.as_str(), name) {
                return Some(i);
            }
            i = i + 1;
        }
        None
    }

    /// Stores a plugin: it replaces the plugin of the same name, or is added.
    pub fn store(&mut self, meta: PluginMeta)
        ensures
            final(self).plugins_view() == store_plugin(old(self).plugins_view(), meta),
            final(self).dir() == old(self).dir(),
    {
        proof {
            use_type_invariant(&*self);
        }
        let ghost s = self.plugins@;
        let found = self.position_of(meta.plugin.name.as_str());
        proof {
            law_store_keeps_names_distinct(s, meta);
        }
        let mut plugins: Vec<PluginMeta> = Vec::new();
        std::mem::swap(&mut plugins, &mut self.plugins);
        match found {
            Some(i) => {
                proof {
                    let k = choose|k: int| 0 <= k < s.len() && s[k].plugin.name@ == meta.plugin.name@;
                    if k != i {
                        if k < i {
                            assert(s[k].plugin.name@ != s[i as int].plugin.name@);
                        } else {
                            assert(s[i as int].plugin.name@ != s[k].plugin.name@);
                        }
                    }
                }
                plugins.set(i, meta);
            },
            None => {
                plugins.push(meta);
            },
        }
        self.plugins = plugins;
    }

    /// Reloads the plugins from the metadata files of the plugins
    /// directory: `dir_exists` says whether the directory exists, and
    /// `files` holds, in directory order, each `.toml` file parsed, or the
    /// error met reading or parsing it. The loaded plugins are cleared; with
    /// no directory, or none on disk, that is all. Else the files are stored
    /// in turn (a later file of the same plugin name wins) up to the first
    /// error, which is returned.
    pub fn load_metadata(&mut self, dir_exists: bool, files: Vec<Result<PluginMeta, IntegrationError>>) -> (r: Result<
        (),
        IntegrationError,
    >)
        ensures
            final(self).dir() == old(self).dir(),
            old(self).dir() is None || !dir_exists ==> r is Ok && final(self).plugins_view().len() == 0,
            old(self).dir() is Some && dir_exists ==> match first_error(files@) {
                None => r is Ok && final(self).plugins_view() == store_all(Seq::empty(), oks(files@)),
                Some(k) => (match files@[k] {
                    Err(e) => r == Err::<(), IntegrationError>(e),
                    Ok(_) => false,
                }) && final(self).plugins_view() == store_all(
                    Seq::empty(),
                    oks(files@.take(k)),
                ),
            },
    {
        let mut cleared: Vec<PluginMeta> = Vec::new();
        std::mem::swap(&mut cleared, &mut self.plugins);
        assert(self.plugins_view() =~= store_all(Seq::empty(), Seq::empty()));
        if self.plugins_dir.is_none() || !dir_exists {
            return Ok(());
        }
        let ghost all = files@;
        let mut rest = files;
        let mut batch: Vec<Result<PluginMeta, IntegrationError>> = Vec::new();
        while rest.len() > 0
            invariant
                batch@ + rest@.reverse() == all.reverse(),
            decreases rest@.len(),
        {
            let ghost r0 = rest@;
            let ghost b0 = batch@;
            let f = rest.pop().unwrap();
            batch.push(f);
            proof {
                assert(r0.reverse() =~= seq![f] + rest@.reverse());
                assert(batch@ + rest@.reverse() =~= b0 + r0.reverse());
            }
        }
        assert(batch@ =~= all.reverse());
        let mut k: usize = 0;
        let n = batch.len();
        while batch.len() > 0
            invariant
                n == all.len(),
                batch@.len() + k == n,
                batch@ =~= all.reverse().subrange(0, n - k),
                first_error(all.take(k as int)) is None,
                self.plugins_view() == store_all(Seq::empty(), oks(all.take(k as int))),
                old(self).dir() is Some,
                dir_exists,
                all == files@,
                self.dir() == old(self).dir(),
            decreases batch@.len(),
        {
            let f = batch.pop().unwrap();
            proof {
                assert(f == all.reverse()[n - k - 1]);
                assert(f == all[k as int]);
                assert(all.take(k + 1).drop_last() =~= all.take(k as int));
                assert(all.take(k + 1).last() == f);
            }
            match f {
                Ok(m) => {
                    proof {
                        let prev = oks(all.take(k as int));
                        assert(oks(all.take(k + 1)) == prev.push(m));
                        assert(prev.push(m).drop_last() =~= prev);
                    }
                    self.store(m);
                },
                Err(e) => {
                    proof {
                        lemma_first_error_at(all, k as int);
                    }
                    return Err(e);
                },
            }
            k = k + 1;
        }
        assert(all.take(n as int) =~= all);
        Ok(())
    }
}

/// The position of the first error, if any.
pub open spec fn first_error(files: Seq<Result<PluginMeta, IntegrationError>>) -> Option<int>
    decreases files.len(),
{
    if files.len() == 0 {
        None
    } else {
        match first_error(files.drop_last()) {
            Some(k) => Some(k),
            None => if files.last() is Err {
                Some(files.len() - 1)
            } else {
                None
            },
        }
    }
}

/// The parsed plugins, in order, leaving out the errors.
pub open spec fn oks(files: Seq<Result<PluginMeta, IntegrationError>>) -> Seq<PluginMeta>
    decreases files.len(),
{
    if files.len() == 0 {
        Seq::empty()
    } else {
        match files.last() {
            Ok(m) => oks(files.drop_last()).push(m),
            Err(_) => oks(files.drop_last()),
        }
    }
}

proof fn lemma_first_error_at(files: Seq<Result<PluginMeta, IntegrationError>>, k: int)
    requires
        0 <= k < files.len(),
        first_error(files.take(k)) is None,
        files[k] is Err,
    ensures
        first_error(files) == Some(k),
    decreases files.len(),
{
    if k < files.len() - 1 {
        assert(files.drop_last().take(k) =~= files.take(k));
        lemma_first_error_at(files.drop_last(), k);
    } else {
        assert(files.drop_last() =~= files.take(k));
    }
}

impl Default for PluginManager {
    fn default() -> (r: Self)
        ensures
            r.plugins_view().len() == 0,
            r.dir() is None,
    {
        PluginManager::with_dir(None)
    }
}

} // verus!
