//! Server configuration: the configuration models, and the rules by which
//! configuration files are found, named and reloaded.
use vstd::prelude::*;

verus! {

/// When a refresh listener runs: before the files are read again, or after.
#[derive(PartialEq, Eq, Structural, Clone, Copy, Debug)]
pub enum CfgRefreshEvent {
    Before,
    After,
}

/// What can go wrong while loading configuration.
#[derive(Debug)]
pub enum CfgError {
    PathInvalid(String),
    CfgNotFound,
    DefaultConfigMissing,
    Other(String),
}

/// The server's configuration.
#[derive(Debug)]
pub struct SvrCfg {
    pub svr_id: i32,
    pub ports: Vec<i32>,
    pub log: LogConfig,
    pub cs: CsEndpointConfig,
    pub db: Vec<DbConfig>,
}

/// Where the client/server endpoint listens, and how many mails its
/// broadcast channel holds.
#[derive(Debug)]
pub struct CsEndpointConfig {
    pub port: i32,
    pub ip: String,
    pub broadcast_chan_size: usize,
}

/// A database the server connects to.
#[derive(Debug)]
pub enum DbConfig {
    Mysql { name: String, url: String, max_conn: u32 },
    Redis { name: String, url: String },
}

/// How the server logs.
#[derive(Debug)]
pub struct LogConfig {
    pub dir: String,
    pub file_name: String,
    pub level: String,
    pub to_stdout: bool,
    pub to_file: bool,
    pub with_thread_id: bool,
    pub with_thread_name: bool,
    pub with_line_number: bool,
}

/// A MySQL server's address.
#[derive(Debug)]
pub struct MysqlConfig {
    pub ip: String,
}

/// `i` is the position of the last `.` in `name`.
pub open spec fn is_last_dot(name: Seq<char>, i: int) -> bool {
    &&& 0 <= i < name.len()
    &&& name[i] == '.'
    &&& forall|j: int| i < j < name.len() ==> name[j] != '.'
}

/// The key under which a configuration file is kept: its file name without
/// the part from the last `.` on, or the whole name when it has no `.`.
pub fn config_key(file_name: &str) -> (key: String)
    ensures
        (exists|i: int| is_last_dot(file_name@, i) && key@ == file_name@.take(i)) || ((forall|
            i: int,
        | 0 <= i < file_name@.len() ==> file_name@[i] != '.') && key@ == file_name@),
{
    let n = file_name.unicode_len();
    let mut last: Option<usize> = None;
    let mut i: usize = 0;
    while i < n
        invariant
            n == file_name@.len(),
            0 <= i <= n,
            last matches Some(k) ==> k < i && file_name@[k as int] == '.' && forall|j: int|
                k < j < i ==> file_name@[j] != '.',
            last is None ==> forall|j: int| 0 <= j < i ==> file_name@[j] != '.',
        decreases n - i,
    {
        if file_name.get_char(i) == '.' {
            last = Some(i);
        }
        i += 1;
    }
    match last {
        Some(k) => {
            let stem = file_name.substring_char(0, k);
            let key = String::from_str(stem);
            assert(is_last_dot(file_name@, k as int));
            assert(key@ == file_name@.take(k as int));
            key
        },
        None => String::from_str(file_name),
    }
}

/// The text an optional file extension is compared as: the extension, or
/// the empty text when there is none.
pub open spec fn extension_text(ext: Option<&str>) -> Seq<char> {
    match ext {
        Some(e) => e@,
        None => Seq::empty(),
    }
}

/// Whether a file with extension `ext` is a configuration file: when one of
/// `formats` is that extension.
pub fn is_config_file(ext: Option<&str>, formats: &Vec<String>) -> (r: bool)
    ensures
        r == exists|i: int| 0 <= i < formats@.len() && formats@[i]@ == extension_text(ext),
{
    let text = match ext {
        Some(e) => String::from_str(e),
        None => String::new(),
    };
    let mut i: usize = 0;
    while i < formats.len()
        invariant
            0 <= i <= formats@.len(),
            text@ == extension_text(ext),
            forall|j: int| 0 <= j < i ==> formats@[j]@ != text@,
        decreases formats@.len() - i,
    {
        if formats[i] == text {
            return true;
        }
        i += 1;
    }
    false
}

/// The positions, in order, among the first `n` listeners, of those that run
/// at `point`.
pub open spec fn listeners_at_spec(events: Seq<CfgRefreshEvent>, point: CfgRefreshEvent, n: int) -> Seq<
    usize,
>
    decreases n,
{
    if n <= 0 {
        Seq::empty()
    } else if events[n - 1] == point {
        listeners_at_spec(events, point, n - 1).push((n - 1) as usize)
    } else {
        listeners_at_spec(events, point, n - 1)
    }
}

/// The positions, in registration order, of the listeners that run at
/// `point`.
pub fn listeners_at(events: &Vec<CfgRefreshEvent>, point: CfgRefreshEvent) -> (r: Vec<usize>)
    ensures
        r@ == listeners_at_spec(events@, point, events@.len() as int),
{
    let mut r: Vec<usize> = Vec::new();
    let mut i: usize = 0;
    while i < events.len()
        invariant
            0 <= i <= events@.len(),
            r@ == listeners_at_spec(events@, point, i as int),
        decreases events@.len() - i,
    {
        if events[i] == point {
            r.push(i);
        }
        i += 1;
    }
    r
}

/// A refresh runs every listener exactly once: each listener's position is
/// among those of its own point, and not among those of the other point.
pub proof fn lemma_refresh_runs_each_listener_once(events: Seq<CfgRefreshEvent>, n: int, i: int)
    requires
        0 <= i < n <= events.len(),
        n <= usize::MAX,
    ensures
        listeners_at_spec(events, events[i], n).contains(i as usize),
        !listeners_at_spec(
            events,
            if events[i] == CfgRefreshEvent::Before {
                CfgRefreshEvent::After
            } else {
                CfgRefreshEvent::Before
            },
            n,
        ).contains(i as usize),
{
    let other = if events[i] == CfgRefreshEvent::Before {
        CfgRefreshEvent::After
    } else {
        CfgRefreshEvent::Before
    };
    lemma_listeners_below(events, other, n);
    let theirs = listeners_at_spec(events, other, n);
    if theirs.contains(i as usize) {
        let k = choose|k: int| 0 <= k < theirs.len() && theirs[k] == i as usize;
        assert(events[theirs[k] as int] == other);
    }
    lemma_listener_listed(events, n, i);
}

/// A listener's position is among those of its own point.
proof fn lemma_listener_listed(events: Seq<CfgRefreshEvent>, n: int, i: int)
    requires
        0 <= i < n <= events.len(),
        n <= usize::MAX,
    ensures
        listeners_at_spec(events, events[i], n).contains(i as usize),
    decreases n,
{
    let mine = listeners_at_spec(events, events[i], n);
    if i == n - 1 {
        let prev = listeners_at_spec(events, events[i], n - 1);
        assert(mine == prev.push((n - 1) as usize));
        assert(mine[prev.len() as int] == i as usize);
    } else {
        lemma_listener_listed(events, n - 1, i);
        let prev = listeners_at_spec(events, events[i], n - 1);
        let k = choose|k: int| 0 <= k < prev.len() && prev[k] == i as usize;
        if events[n - 1] == events[i] {
            assert(mine == prev.push((n - 1) as usize));
            assert(mine[k] == i as usize);
        } else {
            assert(mine == prev);
        }
    }
}

/// Every listed position is below `n` and is one of `point`.
proof fn lemma_listeners_below(events: Seq<CfgRefreshEvent>, point: CfgRefreshEvent, n: int)
    requires
        0 <= n <= events.len(),
        n <= usize::MAX,
    ensures
        forall|k: int|
            0 <= k < listeners_at_spec(events, point, n).len() ==> #[trigger] listeners_at_spec(
                events,
                point,
                n,
            )[k] < n && events[listeners_at_spec(events, point, n)[k] as int] == point,
    decreases n,
{
    if n > 0 {
        lemma_listeners_below(events, point, n - 1);
    }
}

/// Listed positions increase.
pub proof fn lemma_listeners_sorted(events: Seq<CfgRefreshEvent>, point: CfgRefreshEvent, n: int)
    requires
        0 <= n <= events.len(),
        n <= usize::MAX,
    ensures
        forall|a: int, b: int|
            0 <= a < b < listeners_at_spec(events, point, n).len() ==> #[trigger] listeners_at_spec(
                events,
                point,
                n,
            )[a] < #[trigger] listeners_at_spec(events, point, n)[b],
    decreases n,
{
    if n > 0 {
        lemma_listeners_sorted(events, point, n - 1);
        lemma_listeners_below(events, point, n - 1);
    }
}

/// What is wrong with a configuration directory, if anything.
pub enum DirProblem {
    Missing,
    NotDir,
}

/// The first problem of a configuration directory: that it does not exist,
/// or else that it is not a directory.
pub fn dir_problem(exists: bool, is_dir: bool) -> (r: Option<DirProblem>)
    ensures
        !exists ==> r matches Some(DirProblem::Missing),
        exists && !is_dir ==> r matches Some(DirProblem::NotDir),
        exists && is_dir ==> r is None,
{
    if !exists {
        Some(DirProblem::Missing)
    } else if !is_dir {
        Some(DirProblem::NotDir)
    } else {
        None
    }
}

/// The `CONFIG` environment variable as the process found it.
pub enum EnvValue {
    Present(String),
    NotPresent,
    NotUnicode(String),
}

/// Where the configuration directory is to be looked for.
pub enum CfgDirSource {
    /// The path that `CONFIG` names.
    Env(String),
    /// `./config` beside the executable.
    BesideExe,
}

/// Where to look for the configuration directory: the path that `CONFIG`
/// names; without `CONFIG`, beside the executable when its directory is
/// known, else an error; a `CONFIG` that is not Unicode is an error with its
/// text.
pub fn cfg_dir_source(var: EnvValue, exe_dir_known: bool) -> (r: Result<CfgDirSource, CfgError>)
    ensures
        var matches EnvValue::Present(p) ==> (r matches Ok(CfgDirSource::Env(q)) && q@ == p@),
        var matches EnvValue::NotPresent ==> (exe_dir_known ==> r matches Ok(
            CfgDirSource::BesideExe,
        )),
        var matches EnvValue::NotPresent ==> (!exe_dir_known ==> (r matches Err(
            CfgError::PathInvalid(m),
        ) && m@ == "exe dir error"@)),
        var matches EnvValue::NotUnicode(t) ==> (r matches Err(CfgError::Other(m)) && m@ == t@),
{
    match var {
        EnvValue::Present(p) => Ok(CfgDirSource::Env(p)),
        EnvValue::NotPresent => {
            if exe_dir_known {
                Ok(CfgDirSource::BesideExe)
            } else {
                Err(CfgError::PathInvalid(String::from_str("exe dir error")))
            }
        },
        EnvValue::NotUnicode(t) => Err(CfgError::Other(t)),
    }
}

/// The name, URL and pool size of each MySQL database, in order.
pub open spec fn mysql_entries(dbs: Seq<DbConfig>) -> Seq<(Seq<char>, Seq<char>, u32)>
    decreases dbs.len(),
{
    if dbs.len() == 0 {
        Seq::empty()
    } else {
        match dbs.last() {
            DbConfig::Mysql { name, url, max_conn } => mysql_entries(dbs.drop_last()).push(
                (name@, url@, max_conn),
            ),
            DbConfig::Redis { .. } => mysql_entries(dbs.drop_last()),
        }
    }
}

/// The name and URL of each Redis database, in order.
pub open spec fn redis_entries(dbs: Seq<DbConfig>) -> Seq<(Seq<char>, Seq<char>)>
    decreases dbs.len(),
{
    if dbs.len() == 0 {
        Seq::empty()
    } else {
        match dbs.last() {
            DbConfig::Redis { name, url } => redis_entries(dbs.drop_last()).push((name@, url@)),
            DbConfig::Mysql { .. } => redis_entries(dbs.drop_last()),
        }
    }
}

/// The views of a list of MySQL pool targets.
pub open spec fn mysql_view(r: Seq<(String, String, u32)>) -> Seq<(Seq<char>, Seq<char>, u32)> {
    r.map_values(|t: (String, String, u32)| (t.0@, t.1@, t.2))
}

/// The views of a list of Redis pool targets.
pub open spec fn redis_view(r: Seq<(String, String)>) -> Seq<(Seq<char>, Seq<char>)> {
    r.map_values(|t: (String, String)| (t.0@, t.1@))
}

/// One more MySQL database at the end of the configuration adds its name,
/// URL and pool size, unchanged, at the end of the MySQL entries; a Redis
/// database leaves them as they were; no database gives none.
pub proof fn lemma_mysql_entries_step(
    dbs: Seq<DbConfig>,
    name: String,
    url: String,
    max_conn: u32,
)
    ensures
        mysql_entries(Seq::<DbConfig>::empty()) == Seq::<(Seq<char>, Seq<char>, u32)>::empty(),
        mysql_entries(dbs.push(DbConfig::Mysql { name, url, max_conn })) == mysql_entries(dbs).push(
            (name@, url@, max_conn),
        ),
        mysql_entries(dbs.push(DbConfig::Redis { name, url })) == mysql_entries(dbs),
{
    assert(dbs.push(DbConfig::Mysql { name, url, max_conn }).drop_last() =~= dbs);
    assert(dbs.push(DbConfig::Redis { name, url }).drop_last() =~= dbs);
}

/// One more Redis database at the end of the configuration adds its name and
/// URL at the end of the Redis entries; a MySQL database leaves them as they
/// were; no database gives none.
pub proof fn lemma_redis_entries_step(
    dbs: Seq<DbConfig>,
    name: String,
    url: String,
    max_conn: u32,
)
    ensures
        redis_entries(Seq::<DbConfig>::empty()) == Seq::<(Seq<char>, Seq<char>)>::empty(),
        redis_entries(dbs.push(DbConfig::Redis { name, url })) == redis_entries(dbs).push(
            (name@, url@),
        ),
        redis_entries(dbs.push(DbConfig::Mysql { name, url, max_conn })) == redis_entries(dbs),
{
    assert(dbs.push(DbConfig::Mysql { name, url, max_conn }).drop_last() =~= dbs);
    assert(dbs.push(DbConfig::Redis { name, url }).drop_last() =~= dbs);
}

/// The number of Redis databases among `dbs`.
pub open spec fn redis_count(dbs: Seq<DbConfig>) -> nat
    decreases dbs.len(),
{
    if dbs.len() == 0 {
        0
    } else {
        redis_count(dbs.drop_last()) + if dbs.last() is Redis {
            1nat
        } else {
            0nat
        }
    }
}

/// The number of MySQL databases among `dbs`.
pub open spec fn mysql_count(dbs: Seq<DbConfig>) -> nat
    decreases dbs.len(),
{
    if dbs.len() == 0 {
        0
    } else {
        mysql_count(dbs.drop_last()) + if dbs.last() is Mysql {
            1nat
        } else {
            0nat
        }
    }
}

/// There is one Redis entry per Redis database and one MySQL entry per MySQL
/// database; the entry at each place is that of a database of its kind, with
/// its fields unchanged.
pub proof fn lemma_entries_one_per_database(dbs: Seq<DbConfig>)
    ensures
        redis_entries(dbs).len() == redis_count(dbs),
        mysql_entries(dbs).len() == mysql_count(dbs),
        forall|k: int|
            #![trigger mysql_entries(dbs)[k]]
            0 <= k < mysql_entries(dbs).len() ==> exists|i: int|
                0 <= i < dbs.len() && (#[trigger] dbs[i] matches DbConfig::Mysql { name, url, max_conn }
                    && mysql_entries(dbs)[k] == (name@, url@, max_conn)),
        forall|k: int|
            #![trigger redis_entries(dbs)[k]]
            0 <= k < redis_entries(dbs).len() ==> exists|i: int|
                0 <= i < dbs.len() && (#[trigger] dbs[i] matches DbConfig::Redis { name, url }
                    && redis_entries(dbs)[k] == (name@, url@)),
    decreases dbs.len(),
{
    if dbs.len() > 0 {
        let t = dbs.drop_last();
        lemma_entries_one_per_database(t);
        assert forall|k: int| #![trigger mysql_entries(dbs)[k]] 0 <= k < mysql_entries(dbs).len() implies exists|i: int|
            0 <= i < dbs.len() && (#[trigger] dbs[i] matches DbConfig::Mysql { name, url, max_conn }
                && mysql_entries(dbs)[k] == (name@, url@, max_conn)) by {
            if k < mysql_entries(t).len() {
                let i = choose|i: int|
                    0 <= i < t.len() && (#[trigger] t[i] matches DbConfig::Mysql { name, url, max_conn }
                        && mysql_entries(t)[k] == (name@, url@, max_conn));
                assert(dbs[i] == t[i]);
            } else {
                assert(dbs[dbs.len() - 1] == dbs.last());
            }
        }
        assert forall|k: int| #![trigger redis_entries(dbs)[k]] 0 <= k < redis_entries(dbs).len() implies exists|i: int|
            0 <= i < dbs.len() && (#[trigger] dbs[i] matches DbConfig::Redis { name, url }
                && redis_entries(dbs)[k] == (name@, url@)) by {
            if k < redis_entries(t).len() {
                let i = choose|i: int|
                    0 <= i < t.len() && (#[trigger] t[i] matches DbConfig::Redis { name, url }
                        && redis_entries(t)[k] == (name@, url@));
                assert(dbs[i] == t[i]);
            } else {
                assert(dbs[dbs.len() - 1] == dbs.last());
            }
        }
    }
}

/// The MySQL pools to open: name, URL and pool size of each MySQL database,
/// in the order of the configuration.
pub fn mysql_targets(dbs: &Vec<DbConfig>) -> (r: Vec<(String, String, u32)>)
    ensures
        mysql_view(r@) == mysql_entries(dbs@),
{
    let mut r: Vec<(String, String, u32)> = Vec::new();
    let mut i: usize = 0;
    while i < dbs.len()
        invariant
            0 <= i <= dbs@.len(),
            mysql_view(r@) == mysql_entries(dbs@.take(i as int)),
        decreases dbs@.len() - i,
    {
        assert(dbs@.take(i + 1).drop_last() =~= dbs@.take(i as int));
        let ghost before = r@;
        match &dbs[i] {
            DbConfig::Mysql { name, url, max_conn } => {
                r.push((name.clone(), url.clone(), *max_conn));
                assert(mysql_view(r@) =~= mysql_view(before).push((name@, url@, *max_conn)));
            },
            DbConfig::Redis { .. } => {},
        }
        i += 1;
    }
    assert(dbs@.take(dbs@.len() as int) =~= dbs@);
    r
}

/// The Redis pools to open: name and URL of each Redis database, in the
/// order of the configuration.
pub fn redis_targets(dbs: &Vec<DbConfig>) -> (r: Vec<(String, String)>)
    ensures
        redis_view(r@) == redis_entries(dbs@),
{
    let mut r: Vec<(String, String)> = Vec::new();
    let mut i: usize = 0;
    while i < dbs.len()
        invariant
            0 <= i <= dbs@.len(),
            redis_view(r@) == redis_entries(dbs@.take(i as int)),
        decreases dbs@.len() - i,
    {
        assert(dbs@.take(i + 1).drop_last() =~= dbs@.take(i as int));
        let ghost before = r@;
        match &dbs[i] {
            DbConfig::Redis { name, url } => {
                r.push((name.clone(), url.clone()));
                assert(redis_view(r@) =~= redis_view(before).push((name@, url@)));
            },
            DbConfig::Mysql { .. } => {},
        }
        i += 1;
    }
    assert(dbs@.take(dbs@.len() as int) =~= dbs@);
    r
}

} // verus!
