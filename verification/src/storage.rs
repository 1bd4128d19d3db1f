//! What is kept on disk: where it lies, how settings are read back, and how they
//! are replaced without ever being lost.

use vstd::prelude::*;

use crate::account::{
    in_day_order, lemma_day_order, sort_times, times_sorted, Account, AccountModel, AppConfig,
};
use crate::claude::{Provider, ProviderModel};
use crate::state::{account_models, refresh_interval};
use crate::text::{chars_of, join2, opt_text, same_text, texts};
use crate::time::DailyTime;

verus! {

/// The shortest and the longest time between two looks at the limits that
/// settings may hold, in seconds.
pub const MIN_STORED_INTERVAL_SECS: u64 = 5;

pub const MAX_STORED_INTERVAL_SECS: u64 = 3_600;

/// A digit of a hexadecimal number, in lower case.
pub open spec fn is_hex(c: char) -> bool {
    '0' <= c <= '9' || 'a' <= c <= 'f'
}

/// The name of an account on disk: one to thirty-two hexadecimal digits.
pub open spec fn is_account_id(id: Seq<char>) -> bool {
    &&& 1 <= id.len() <= 32
    &&& forall|i: int| 0 <= i < id.len() ==> is_hex(#[trigger] id[i])
}

/// Passes the name of an account.
pub fn validate_account_id(id: &str) -> (result: Result<(), String>)
    ensures
        match result {
            Ok(_) => is_account_id(id@),
            Err(error) => !is_account_id(id@) && error@
                == "Settings contain an invalid account ID"@,
        },
{
    let chars = chars_of(id);
    let mut valid: bool = 1 <= chars.len() && chars.len() <= 32;
    let mut i: usize = 0;
    while i < chars.len()
        invariant
            i <= chars.len(),
            chars@ == id@,
            valid == (1 <= chars.len() <= 32 && forall|j: int|
                0 <= j < i ==> is_hex(#[trigger] chars@[j])),
        decreases chars.len() - i,
    {
        let c: char = chars[i];
        if !(('0' <= c && c <= '9') || ('a' <= c && c <= 'f')) {
            assert(!is_hex(chars@[i as int]));
            valid = false;
        }
        i = i + 1;
    }
    if valid {
        Ok(())
    } else {
        Err("Settings contain an invalid account ID".to_owned())
    }
}

/// The hexadecimal digit for `d`, with `0 <= d < 16`.
pub open spec fn hex_digit(d: int) -> char {
    if d < 10 {
        (48 + d) as char
    } else {
        (87 + d) as char
    }
}

/// `n` in hexadecimal, in lower case, without leading zeros.
pub open spec fn hexadecimal(n: nat) -> Seq<char>
    decreases n,
{
    if n < 16 {
        seq![hex_digit(n as int)]
    } else {
        hexadecimal(n / 16).push(hex_digit((n % 16) as int))
    }
}

/// The name of an account that is made at a moment, in nanoseconds since the
/// beginning of 1970.
pub fn account_id(nanos: u128) -> (id: String)
    ensures
        id@ == hexadecimal(nanos as nat),
    decreases nanos,
{
    let d: u8 = (nanos % 16) as u8;
    let digit: char = if d < 10 {
        (48u8 + d) as char
    } else {
        (87u8 + d) as char
    };
    if nanos < 16 {
        let mut id = String::new();
        id.push(digit);
        assert(id@ =~= hexadecimal(nanos as nat));
        id
    } else {
        let mut id = account_id(nanos / 16);
        id.push(digit);
        id
    }
}

/// Calls `std::time::SystemTime::now` and counts the nanoseconds since the
/// beginning of 1970; there are none on a clock that is set to an earlier time.
/// Nothing is said of the result, which is whatever the clock shows.
#[verifier::external_body]
fn clock_nanos() -> (nanos: Option<u128>) {
    std::time::SystemTime::now()
        .duration_since(std::time::UNIX_EPOCH)
        .ok()
        .map(|time| time.as_nanos())
}

/// A name for a new account, after the present moment.
pub fn new_account_id() -> (id: String)
    ensures
        is_account_id(id@),
        exists|nanos: u128| id@ == #[trigger] hexadecimal(nanos as nat),
{
    let nanos: u128 = match clock_nanos() {
        Some(nanos) => nanos,
        None => 0,
    };
    proof {
        law_account_ids_are_valid(nanos);
    }
    account_id(nanos)
}

/// 16 to the power of `k`.
spec fn power_of_16(k: nat) -> nat
    decreases k,
{
    if k == 0 {
        1
    } else {
        16 * power_of_16((k - 1) as nat)
    }
}

proof fn lemma_hexadecimal(n: nat, k: nat)
    requires
        1 <= k,
        n < power_of_16(k),
    ensures
        1 <= hexadecimal(n).len() <= k,
        forall|i: int| 0 <= i < hexadecimal(n).len() ==> is_hex(#[trigger] hexadecimal(n)[i]),
    decreases n,
{
    if n >= 16 {
        assert(power_of_16(1) == 16) by {
            reveal_with_fuel(power_of_16, 2);
        }
        assert(k > 1);
        lemma_hexadecimal(n / 16, (k - 1) as nat);
    }
}

/// Every name that is made for an account is one.
pub proof fn law_account_ids_are_valid(nanos: u128)
    ensures
        is_account_id(hexadecimal(nanos as nat)),
{
    assert(power_of_16(32) == 0x1_0000_0000_0000_0000_0000_0000_0000_0000) by {
        reveal_with_fuel(power_of_16, 33);
    }
    lemma_hexadecimal(nanos as nat, 32);
}

/// Accounts that are made at different moments have different names.
pub proof fn law_account_ids_are_distinct(a: nat, b: nat)
    requires
        hexadecimal(a) == hexadecimal(b),
    ensures
        a == b,
    decreases a,
{
    lemma_first_digit(a);
    lemma_first_digit(b);
    let x = hexadecimal(a);
    let y = hexadecimal(b);
    assert(x.last() == hex_digit((a % 16) as int));
    assert(y.last() == hex_digit((b % 16) as int));
    assert(a % 16 == b % 16);
    if a >= 16 && b >= 16 {
        assert(x.drop_last() =~= hexadecimal(a / 16));
        assert(y.drop_last() =~= hexadecimal(b / 16));
        law_account_ids_are_distinct(a / 16, b / 16);
    }
}

proof fn lemma_first_digit(n: nat)
    ensures
        hexadecimal(n).len() == 1 <==> n < 16,
        hexadecimal(n).len() >= 1,
    decreases n,
{
    if n >= 16 {
        lemma_first_digit(n / 16);
    }
}

/// The name of an account leads nowhere but to the directory of that name.
pub proof fn law_account_ids_name_one_directory(id: Seq<char>, i: int)
    requires
        is_account_id(id),
        0 <= i < id.len(),
    ensures
        id[i] != '/',
        id[i] != '\\',
        id[i] != '.',
        id[i] != ':',
{
}

/// Where the storage of an account lies, below the directory of the app.
#[derive(Clone, Copy, Debug, PartialEq, Eq, Structural)]
pub enum Area {
    Account,
    CodexHome,
    Warmup,
}

/// The directories that lead to the storage of an account.
pub open spec fn area_path(area: Area, id: Seq<char>) -> Seq<Seq<char>> {
    match area {
        Area::Account => seq!["accounts"@, id],
        Area::CodexHome => seq!["accounts"@, id, "codex-home"@],
        Area::Warmup => seq!["accounts"@, id, "warmup"@],
    }
}

/// The directories that lead to the storage of an account.
pub fn area_parts(area: Area, id: &str) -> (parts: Vec<String>)
    ensures
        texts(parts@) == area_path(area, id@),
{
    let mut parts: Vec<String> = Vec::new();
    parts.push("accounts".to_owned());
    parts.push(id.to_owned());
    match area {
        Area::Account => {},
        Area::CodexHome => {
            parts.push("codex-home".to_owned());
        },
        Area::Warmup => {
            parts.push("warmup".to_owned());
        },
    }
    assert(texts(parts@) =~= area_path(area, id@));
    parts
}

/// The directories that lead to the Codex login of an account.
pub fn account_home(id: &str) -> (parts: Vec<String>)
    ensures
        texts(parts@) == area_path(Area::CodexHome, id@),
{
    area_parts(Area::CodexHome, id)
}

/// The directories that lead to the workspace of an account.
pub fn warmup_workspace(id: &str) -> (parts: Vec<String>)
    ensures
        texts(parts@) == area_path(Area::Warmup, id@),
{
    area_parts(Area::Warmup, id)
}

/// The directories that lead to the login of an account with a provider that has
/// a tool of its own: the home is named after the program.
pub open spec fn provider_path(provider: ProviderModel, id: Seq<char>) -> Seq<Seq<char>> {
    seq!["accounts"@, id, provider.program + "-home"@]
}

/// The directories that lead to the login of an account with a provider that has
/// a tool of its own.
pub fn provider_home(provider: &Provider, id: &str) -> (parts: Vec<String>)
    ensures
        texts(parts@) == provider_path(provider@, id@),
{
    let mut parts = area_parts(Area::Account, id);
    let ghost account = texts(parts@);
    parts.push(join2(provider.program.as_str(), "-home"));
    assert(texts(parts@) =~= account.push(provider@.program + "-home"@));
    assert(account.push(provider@.program + "-home"@) =~= provider_path(provider@, id@));
    parts
}

/// Two accounts do not share storage.
pub proof fn law_accounts_do_not_share_storage(
    area: Area,
    other: Area,
    provider: ProviderModel,
    other_provider: ProviderModel,
    a: Seq<char>,
    b: Seq<char>,
)
    requires
        a != b,
    ensures
        area_path(area, a) != area_path(other, b),
        provider_path(provider, a) != area_path(other, b),
        provider_path(provider, a) != provider_path(other_provider, b),
{
    assert(area_path(area, a)[1] == a);
    assert(area_path(other, b)[1] == b);
    assert(provider_path(provider, a)[1] == a);
    assert(provider_path(other_provider, b)[1] == b);
}

/// The logins of one account with two providers do not share storage.
pub proof fn law_providers_do_not_share_homes(
    provider: ProviderModel,
    other: ProviderModel,
    id: Seq<char>,
)
    ensures
        provider.program != "codex"@ ==> provider_path(provider, id) != area_path(
            Area::CodexHome,
            id,
        ),
        provider.program != other.program ==> provider_path(provider, id) != provider_path(
            other,
            id,
        ),
{
    reveal_strlit("codex");
    reveal_strlit("-home");
    reveal_strlit("codex-home");
    let home = provider.program + "-home"@;
    assert("codex-home"@.take(5) =~= "codex"@);
    assert(home.take(home.len() - 5) =~= provider.program);
    let other_home = other.program + "-home"@;
    assert(other_home.take(other_home.len() - 5) =~= other.program);
    assert(provider_path(provider, id)[2] == home);
    assert(provider_path(other, id)[2] == other_home);
    assert(area_path(Area::CodexHome, id)[2] == "codex-home"@);
}

/// How a new Codex home is set up: logins go to the keyring.
pub fn home_config() -> (text: &'static str)
    ensures
        text@ == "cli_auth_credentials_store = \"keyring\"\n"@,
{
    "cli_auth_credentials_store = \"keyring\"\n"
}

/// A kind of computer, as far as it decides where settings lie.
#[derive(Clone, Copy, Debug, PartialEq, Eq, Structural)]
pub enum Platform {
    Windows,
    MacOs,
    Other,
}

/// The variable of the environment that names the directory to begin with.
#[derive(Clone, Copy, Debug, PartialEq, Eq, Structural)]
pub enum RootVariable {
    /// `CODEX_KEEP_WARM_HOME`
    Profile,
    /// `LOCALAPPDATA`
    LocalAppData,
    /// `XDG_CONFIG_HOME`
    ConfigHome,
    /// `HOME`
    Home,
}

impl RootVariable {
    /// The name of the variable.
    pub fn name(self) -> (name: &'static str)
        ensures
            name@ == match self {
                RootVariable::Profile => "CODEX_KEEP_WARM_HOME"@,
                RootVariable::LocalAppData => "LOCALAPPDATA"@,
                RootVariable::ConfigHome => "XDG_CONFIG_HOME"@,
                RootVariable::Home => "HOME"@,
            },
    {
        match self {
            RootVariable::Profile => "CODEX_KEEP_WARM_HOME",
            RootVariable::LocalAppData => "LOCALAPPDATA",
            RootVariable::ConfigHome => "XDG_CONFIG_HOME",
            RootVariable::Home => "HOME",
        }
    }
}

/// The variables that are set.
#[derive(Clone, Copy, Debug, PartialEq, Eq, Structural)]
pub struct RootVariables {
    pub profile: bool,
    pub local_app_data: bool,
    pub config_home: bool,
    pub home: bool,
}

/// The directory of the app: below the directory that a variable names, or that
/// directory itself.
pub open spec fn root_choice(platform: Platform, set: RootVariables) -> Option<
    (RootVariable, Seq<char>),
> {
    if set.profile {
        Some((RootVariable::Profile, ""@))
    } else {
        match platform {
            Platform::Windows => if set.local_app_data {
                Some((RootVariable::LocalAppData, "CodexKeepWarm"@))
            } else {
                None
            },
            Platform::MacOs => if set.home {
                Some((RootVariable::Home, "Library/Application Support/CodexKeepWarm"@))
            } else {
                None
            },
            Platform::Other => if set.config_home {
                Some((RootVariable::ConfigHome, "codex-keep-warm"@))
            } else if set.home {
                Some((RootVariable::Home, ".config/codex-keep-warm"@))
            } else {
                None
            },
        }
    }
}

/// Chooses the directory of the app: the variable that names where to begin, and
/// the path from there, which may be empty.
pub fn choose_root(platform: Platform, set: RootVariables) -> (root: Result<
    (RootVariable, &'static str),
    String,
>)
    ensures
        match (root, root_choice(platform, set)) {
            (Ok(root), Some(expected)) => root.0 == expected.0 && root.1@ == expected.1,
            (Err(error), None) => error@ == "Could not find the local app-data directory"@,
            _ => false,
        },
{
    if set.profile {
        return Ok((RootVariable::Profile, ""));
    }
    match platform {
        Platform::Windows => if set.local_app_data {
            return Ok((RootVariable::LocalAppData, "CodexKeepWarm"));
        },
        Platform::MacOs => if set.home {
            return Ok((RootVariable::Home, "Library/Application Support/CodexKeepWarm"));
        },
        Platform::Other => if set.config_home {
            return Ok((RootVariable::ConfigHome, "codex-keep-warm"));
        } else if set.home {
            return Ok((RootVariable::Home, ".config/codex-keep-warm"));
        },
    }
    Err("Could not find the local app-data directory".to_owned())
}

/// What is wrong with a directory, given whether its path is what it resolves to
/// and whether it is a link; nothing for one that can be used.
pub open spec fn directory_problem(
    resolved: Result<bool, String>,
    is_link: Result<bool, String>,
) -> Option<Seq<char>> {
    match (resolved, is_link) {
        (Err(details), _) => Some("Could not verify app storage: "@ + details@),
        (Ok(_), Err(details)) => Some("Could not verify app storage: "@ + details@),
        (Ok(same), Ok(link)) => if same && !link {
            None
        } else {
            Some("Refusing to use aliased app storage"@)
        },
    }
}

/// Passes a directory that leads nowhere else.
pub fn verify_directory(resolved: Result<bool, String>, is_link: Result<bool, String>) -> (result:
    Result<(), String>)
    ensures
        match (result, directory_problem(resolved, is_link)) {
            (Ok(_), None) => true,
            (Err(error), Some(expected)) => error@ == expected,
            _ => false,
        },
{
    match resolved {
        Err(details) => Err(join2("Could not verify app storage: ", details.as_str())),
        Ok(same) => match is_link {
            Err(details) => Err(join2("Could not verify app storage: ", details.as_str())),
            Ok(link) => if same && !link {
                Ok(())
            } else {
                Err("Refusing to use aliased app storage".to_owned())
            },
        },
    }
}

/// What speaks against removing the directory of an account, given whether it
/// resolves to where it should be and whether it is a link; nothing for one that
/// can be removed.
pub open spec fn removal_problem(
    resolved: Result<bool, String>,
    is_link: Result<bool, String>,
) -> Option<Seq<char>> {
    match (resolved, is_link) {
        (Err(details), _) => Some("Could not verify account storage: "@ + details@),
        (Ok(false), _) => Some("Refusing to remove account storage outside the app directory"@),
        (Ok(true), Err(details)) => Some("Could not verify account storage: "@ + details@),
        (Ok(true), Ok(link)) => if link {
            Some("Refusing to remove account storage outside the app directory"@)
        } else {
            None
        },
    }
}

/// Passes a directory of an account that can be removed.
pub fn check_removal(resolved: Result<bool, String>, is_link: Result<bool, String>) -> (result:
    Result<(), String>)
    ensures
        match (result, removal_problem(resolved, is_link)) {
            (Ok(_), None) => true,
            (Err(error), Some(expected)) => error@ == expected,
            _ => false,
        },
{
    match resolved {
        Err(details) => Err(join2("Could not verify account storage: ", details.as_str())),
        Ok(false) => {
            Err("Refusing to remove account storage outside the app directory".to_owned())
        },
        Ok(true) => match is_link {
            Err(details) => Err(join2("Could not verify account storage: ", details.as_str())),
            Ok(true) => {
                Err("Refusing to remove account storage outside the app directory".to_owned())
            },
            Ok(false) => Ok(()),
        },
    }
}

/// Times without those that repeat the one before.
pub open spec fn without_repeats(times: Seq<DailyTime>) -> Seq<DailyTime>
    decreases times.len(),
{
    if times.len() < 2 {
        times
    } else if times.last() == times[times.len() - 2] {
        without_repeats(times.drop_last())
    } else {
        without_repeats(times.drop_last()).push(times.last())
    }
}

/// A schedule in the order of the day, with each time once.
pub open spec fn settled(times: Seq<DailyTime>) -> Seq<DailyTime> {
    without_repeats(in_day_order(times))
}

/// Puts a schedule in the order of the day, with each time once.
pub fn settle_times(times: &mut Vec<DailyTime>)
    ensures
        final(times)@ == settled(old(times)@),
{
    sort_times(times);
    let ghost sorted = times@;
    let mut kept: Vec<DailyTime> = Vec::new();
    let mut i: usize = 0;
    while i < times.len()
        invariant
            i <= times.len(),
            times@ == sorted,
            kept@ == without_repeats(sorted.take(i as int)),
        decreases times.len() - i,
    {
        let ghost seen = sorted.take(i + 1);
        assert(seen.drop_last() =~= sorted.take(i as int));
        assert(seen.last() == sorted[i as int]);
        if i == 0 {
            kept.push(times[0]);
            assert(kept@ =~= without_repeats(seen));
        } else {
            assert(seen[seen.len() - 2] == sorted[i - 1]);
            if times[i].0 != times[i - 1].0 {
                kept.push(times[i]);
            }
        }
        i = i + 1;
    }
    assert(sorted.take(sorted.len() as int) =~= sorted);
    *times = kept;
}

/// What speaks against settings with accounts of these names; nothing for
/// settings that can be used. The first account with a problem decides.
pub open spec fn ids_problem(accounts: Seq<AccountModel>) -> Option<Seq<char>>
    decreases accounts.len(),
{
    if accounts.len() == 0 {
        None
    } else {
        let before = accounts.drop_last();
        match ids_problem(before) {
            Some(problem) => Some(problem),
            None => if !is_account_id(accounts.last().id) {
                Some("Settings contain an invalid account ID"@)
            } else if has_id(before, accounts.last().id) {
                Some("Settings contain a duplicate account ID"@)
            } else {
                None
            },
        }
    }
}

/// Whether one of the accounts is called `id`.
pub open spec fn has_id(accounts: Seq<AccountModel>, id: Seq<char>) -> bool {
    exists|i: int| 0 <= i < accounts.len() && (#[trigger] accounts[i]).id == id
}

/// An account with its schedule in order.
pub open spec fn tidied(account: AccountModel) -> AccountModel {
    AccountModel { warmup_times: settled(account.warmup_times), ..account }
}

/// Accounts with their schedules in order.
pub open spec fn tidied_all(accounts: Seq<AccountModel>) -> Seq<AccountModel> {
    accounts.map_values(|account: AccountModel| tidied(account))
}

/// `seconds`, moved into the bounds for what settings may hold.
pub open spec fn stored_interval(seconds: u64) -> u64 {
    if seconds < MIN_STORED_INTERVAL_SECS {
        MIN_STORED_INTERVAL_SECS
    } else if seconds > MAX_STORED_INTERVAL_SECS {
        MAX_STORED_INTERVAL_SECS
    } else {
        seconds
    }
}

proof fn lemma_problem_stays(accounts: Seq<AccountModel>, n: int)
    requires
        0 <= n <= accounts.len(),
        ids_problem(accounts.take(n)) is Some,
    ensures
        ids_problem(accounts) == ids_problem(accounts.take(n)),
    decreases accounts.len() - n,
{
    if n < accounts.len() {
        assert(accounts.take(n + 1).drop_last() =~= accounts.take(n));
        lemma_problem_stays(accounts, n + 1);
    } else {
        assert(accounts.take(n) =~= accounts);
    }
}

fn is_taken(accounts: &Vec<Account>, n: usize, id: &str) -> (taken: bool)
    requires
        n <= accounts.len(),
    ensures
        taken == has_id(account_models(accounts@).take(n as int), id@),
{
    let ghost models = account_models(accounts@).take(n as int);
    let mut i: usize = 0;
    while i < n
        invariant
            i <= n <= accounts.len(),
            models == account_models(accounts@).take(n as int),
            forall|j: int| 0 <= j < i ==> (#[trigger] models[j]).id != id@,
        decreases n - i,
    {
        assert(models[i as int] == accounts@[i as int]@);
        if same_text(accounts[i].id.as_str(), id) {
            return true;
        }
        i = i + 1;
    }
    false
}

/// Makes settings that were read fit for use, or says why they are not.
pub fn check_settings(config: AppConfig) -> (result: Result<AppConfig, String>)
    ensures
        match (result, ids_problem(account_models(config.accounts@))) {
            (Ok(settings), None) => {
                &&& settings.version == config.version
                &&& settings.refresh_interval_secs == stored_interval(config.refresh_interval_secs)
                &&& account_models(settings.accounts@) == tidied_all(
                    account_models(config.accounts@),
                )
            },
            (Err(error), Some(problem)) => error@ == problem,
            _ => false,
        },
{
    let ghost models = account_models(config.accounts@);
    let refresh_interval_secs: u64 = if config.refresh_interval_secs < MIN_STORED_INTERVAL_SECS {
        MIN_STORED_INTERVAL_SECS
    } else if config.refresh_interval_secs > MAX_STORED_INTERVAL_SECS {
        MAX_STORED_INTERVAL_SECS
    } else {
        config.refresh_interval_secs
    };
    let mut accounts: Vec<Account> = Vec::new();
    let mut i: usize = 0;
    assert(models.take(0) =~= Seq::empty());
    assert(account_models(accounts@) =~= tidied_all(models.take(0)));
    while i < config.accounts.len()
        invariant
            i <= config.accounts.len(),
            models == account_models(config.accounts@),
            ids_problem(models.take(i as int)) is None,
            account_models(accounts@) == tidied_all(models.take(i as int)),
        decreases config.accounts.len() - i,
    {
        assert(models.take(i + 1).drop_last() =~= models.take(i as int));
        assert(models.take(i + 1).last() == config.accounts@[i as int]@);
        let valid = validate_account_id(config.accounts[i].id.as_str());
        if let Err(error) = valid {
            proof {
                lemma_problem_stays(models, i + 1);
            }
            return Err(error);
        }
        if is_taken(&config.accounts, i, config.accounts[i].id.as_str()) {
            proof {
                lemma_problem_stays(models, i + 1);
            }
            return Err("Settings contain a duplicate account ID".to_owned());
        }
        let mut account = config.accounts[i].clone();
        settle_times(&mut account.warmup_times);
        let ghost before = accounts@;
        accounts.push(account);
        assert(account_models(accounts@) =~= account_models(before).push(account@));
        assert(tidied_all(models.take(i + 1)) =~= tidied_all(models.take(i as int)).push(
            tidied(models[i as int]),
        ));
        i = i + 1;
    }
    assert(models.take(models.len() as int) =~= models);
    Ok(AppConfig { version: config.version, refresh_interval_secs, accounts })
}

/// The files in which settings may be found.
#[derive(Clone, Copy, Debug, PartialEq, Eq, Structural)]
pub enum SettingsFile {
    Settings,
    Temporary,
    Backup,
}

impl SettingsFile {
    /// The name of the file.
    pub fn name(self) -> (name: &'static str)
        ensures
            name@ == match self {
                SettingsFile::Settings => "settings.json"@,
                SettingsFile::Temporary => "settings.json.tmp"@,
                SettingsFile::Backup => "settings.json.bak"@,
            },
    {
        match self {
            SettingsFile::Settings => "settings.json",
            SettingsFile::Temporary => "settings.json.tmp",
            SettingsFile::Backup => "settings.json.bak",
        }
    }
}

/// The file from which settings are read, given those that exist.
pub open spec fn file_to_read(settings: bool, temporary: bool, backup: bool) -> Option<
    SettingsFile,
> {
    if settings {
        Some(SettingsFile::Settings)
    } else if temporary {
        Some(SettingsFile::Temporary)
    } else if backup {
        Some(SettingsFile::Backup)
    } else {
        None
    }
}

/// Chooses the file from which settings are read, given those that exist.
pub fn choose_settings_file(settings: bool, temporary: bool, backup: bool) -> (file: Option<
    SettingsFile,
>)
    ensures
        file == file_to_read(settings, temporary, backup),
{
    if settings {
        Some(SettingsFile::Settings)
    } else if temporary {
        Some(SettingsFile::Temporary)
    } else if backup {
        Some(SettingsFile::Backup)
    } else {
        None
    }
}

/// A step on the way to new settings.
#[derive(Debug)]
pub enum SaveStep {
    /// Write the new settings to the temporary file and see them on disk.
    Write,
    /// Remove the backup.
    RemoveBackup,
    /// Rename the settings to be the backup.
    BackUp,
    /// Rename the temporary file to be the settings.
    Replace,
    /// Rename the backup to be the settings again, because of what went wrong.
    Restore(String),
    /// Remove the backup, which is no longer needed.
    Discard,
    /// Nothing: it is done, or what went wrong is known.
    Finished(Result<(), String>),
}

/// The contents of a [`SaveStep`].
pub enum SaveStepModel {
    Write,
    RemoveBackup,
    BackUp,
    Replace,
    Restore(Seq<char>),
    Discard,
    Finished(Option<Seq<char>>),
}

impl View for SaveStep {
    type V = SaveStepModel;

    open spec fn view(&self) -> SaveStepModel {
        match *self {
            SaveStep::Write => SaveStepModel::Write,
            SaveStep::RemoveBackup => SaveStepModel::RemoveBackup,
            SaveStep::BackUp => SaveStepModel::BackUp,
            SaveStep::Replace => SaveStepModel::Replace,
            SaveStep::Restore(error) => SaveStepModel::Restore(error@),
            SaveStep::Discard => SaveStepModel::Discard,
            SaveStep::Finished(Ok(_)) => SaveStepModel::Finished(None),
            SaveStep::Finished(Err(error)) => SaveStepModel::Finished(Some(error@)),
        }
    }
}

/// What is found after a step: what went wrong with it, and which files exist.
#[derive(Debug)]
pub struct SaveReport {
    pub problem: Option<String>,
    pub settings_exists: bool,
    pub backup_exists: bool,
}

/// The step that follows, given what went wrong with the one before and which
/// files exist.
pub open spec fn step_after(
    step: SaveStepModel,
    problem: Option<Seq<char>>,
    settings_exists: bool,
    backup_exists: bool,
) -> SaveStepModel {
    match (step, problem) {
        (SaveStepModel::Write, Some(problem)) => SaveStepModel::Finished(
            Some("Could not save settings: "@ + problem),
        ),
        (SaveStepModel::Write, None) => if !settings_exists {
            SaveStepModel::Replace
        } else if backup_exists {
            SaveStepModel::RemoveBackup
        } else {
            SaveStepModel::BackUp
        },
        (SaveStepModel::RemoveBackup, Some(problem)) => SaveStepModel::Finished(
            Some("Could not rotate settings: "@ + problem),
        ),
        (SaveStepModel::RemoveBackup, None) => SaveStepModel::BackUp,
        (SaveStepModel::BackUp, Some(problem)) => SaveStepModel::Finished(
            Some("Could not rotate settings: "@ + problem),
        ),
        (SaveStepModel::BackUp, None) => SaveStepModel::Replace,
        (SaveStepModel::Replace, Some(problem)) => if backup_exists {
            SaveStepModel::Restore("Could not replace settings: "@ + problem)
        } else {
            SaveStepModel::Finished(Some("Could not replace settings: "@ + problem))
        },
        (SaveStepModel::Replace, None) => if backup_exists {
            SaveStepModel::Discard
        } else {
            SaveStepModel::Finished(None)
        },
        (SaveStepModel::Restore(error), _) => SaveStepModel::Finished(Some(error)),
        (SaveStepModel::Discard, _) => SaveStepModel::Finished(None),
        (SaveStepModel::Finished(outcome), _) => SaveStepModel::Finished(outcome),
    }
}

/// Decides on the step that follows.
pub fn next_save_step(step: SaveStep, report: SaveReport) -> (next: SaveStep)
    ensures
        next@ == step_after(
            step@,
            opt_text(report.problem),
            report.settings_exists,
            report.backup_exists,
        ),
{
    match step {
        SaveStep::Write => match report.problem {
            Some(problem) => SaveStep::Finished(
                Err(join2("Could not save settings: ", problem.as_str())),
            ),
            None => if !report.settings_exists {
                SaveStep::Replace
            } else if report.backup_exists {
                SaveStep::RemoveBackup
            } else {
                SaveStep::BackUp
            },
        },
        SaveStep::RemoveBackup => match report.problem {
            Some(problem) => SaveStep::Finished(
                Err(join2("Could not rotate settings: ", problem.as_str())),
            ),
            None => SaveStep::BackUp,
        },
        SaveStep::BackUp => match report.problem {
            Some(problem) => SaveStep::Finished(
                Err(join2("Could not rotate settings: ", problem.as_str())),
            ),
            None => SaveStep::Replace,
        },
        SaveStep::Replace => match report.problem {
            Some(problem) => {
                let error = join2("Could not replace settings: ", problem.as_str());
                if report.backup_exists {
                    SaveStep::Restore(error)
                } else {
                    SaveStep::Finished(Err(error))
                }
            },
            None => if report.backup_exists {
                SaveStep::Discard
            } else {
                SaveStep::Finished(Ok(()))
            },
        },
        SaveStep::Restore(error) => SaveStep::Finished(Err(error)),
        SaveStep::Discard => SaveStep::Finished(Ok(())),
        SaveStep::Finished(outcome) => SaveStep::Finished(outcome),
    }
}

/// The files on disk with what they hold. What a file holds is the bytes that
/// were to be written, or something else.
pub struct Disk {
    pub settings: Option<Seq<u8>>,
    pub temporary: Option<Seq<u8>>,
    pub backup: Option<Seq<u8>>,
}

impl Disk {
    /// What is read as the settings.
    pub open spec fn read(self) -> Option<Seq<u8>> {
        match file_to_read(self.settings is Some, self.temporary is Some, self.backup is Some) {
            Some(SettingsFile::Settings) => self.settings,
            Some(SettingsFile::Temporary) => self.temporary,
            Some(SettingsFile::Backup) => self.backup,
            None => None,
        }
    }
}

/// What a step may make of the disk. A step that goes wrong leaves the files as
/// they were, but for the one that it was writing; renaming is all or nothing.
pub open spec fn may_become(
    disk: Disk,
    step: SaveStepModel,
    failed: bool,
    new: Seq<u8>,
    after: Disk,
) -> bool {
    match step {
        SaveStepModel::Write => {
            &&& after.settings == disk.settings
            &&& after.backup == disk.backup
            &&& !failed ==> after.temporary == Some(new)
        },
        SaveStepModel::RemoveBackup | SaveStepModel::Discard => after == if failed {
            disk
        } else {
            Disk { backup: None, ..disk }
        },
        SaveStepModel::BackUp => after == if failed {
            disk
        } else {
            Disk { settings: None, backup: disk.settings, ..disk }
        },
        SaveStepModel::Replace => after == if failed {
            disk
        } else {
            Disk { settings: disk.temporary, temporary: None, ..disk }
        },
        SaveStepModel::Restore(_) => after == if failed {
            disk
        } else {
            Disk { settings: disk.backup, backup: None, ..disk }
        },
        SaveStepModel::Finished(_) => after == disk,
    }
}

/// What holds of the disk before a step on the way from `old` to `new` settings.
pub open spec fn on_the_way(
    disk: Disk,
    step: SaveStepModel,
    old: Seq<u8>,
    new: Seq<u8>,
) -> bool {
    match step {
        SaveStepModel::Write => disk.settings == Some(old),
        SaveStepModel::RemoveBackup => disk.settings == Some(old) && disk.temporary == Some(new),
        SaveStepModel::BackUp => disk.settings == Some(old) && disk.temporary == Some(new)
            && disk.backup is None,
        SaveStepModel::Replace => disk.settings is None && disk.temporary == Some(new)
            && disk.backup == Some(old),
        SaveStepModel::Restore(_) => disk.settings is None && disk.temporary == Some(new)
            && disk.backup == Some(old),
        SaveStepModel::Discard => disk.settings == Some(new),
        SaveStepModel::Finished(None) => disk.settings == Some(new),
        SaveStepModel::Finished(Some(_)) => disk.read() == Some(old) || disk.read() == Some(new),
    }
}

/// Saving over existing settings never loses them. Before every step, and
/// whatever becomes of it, what is read as the settings is what was there or
/// what was to be written, whole; and once saving has succeeded, it is what was
/// to be written.
pub proof fn law_saving_never_loses_settings(
    disk: Disk,
    step: SaveStepModel,
    problem: Option<Seq<char>>,
    old: Seq<u8>,
    new: Seq<u8>,
    after: Disk,
)
    requires
        on_the_way(disk, step, old, new),
        may_become(disk, step, problem is Some, new, after),
    ensures
        disk.read() == Some(old) || disk.read() == Some(new),
        after.read() == Some(old) || after.read() == Some(new),
        on_the_way(
            after,
            step_after(step, problem, after.settings is Some, after.backup is Some),
            old,
            new,
        ),
        step_after(step, problem, after.settings is Some, after.backup is Some)
            == SaveStepModel::Finished(None) ==> after.read() == Some(new),
{
}

/// A settled schedule stands in the order of the day and holds each of its
/// times once, and no others.
pub proof fn law_settled_times_are_in_order(times: Seq<DailyTime>)
    ensures
        times_sorted(settled(times)),
        settled(times).no_duplicates(),
        forall|time: DailyTime| #[trigger] settled(times).contains(time) <==> times.contains(time),
{
    let order = |a: DailyTime, b: DailyTime| a.0 <= b.0;
    let sorted = in_day_order(times);
    times.lemma_sort_by_ensures(order);
    assert(times_sorted(sorted)) by {
        assert forall|i: int, j: int| 0 <= i <= j < sorted.len() implies #[trigger] sorted[i].0
            <= #[trigger] sorted[j].0 by {
            if i < j {
                assert(order(sorted[i], sorted[j]));
            }
        }
    }
    lemma_without_repeats(sorted);
    assert forall|time: DailyTime| #[trigger] settled(times).contains(time) <==> times.contains(
        time,
    ) by {
        times.to_multiset_ensures();
        sorted.to_multiset_ensures();
        assert(sorted.contains(time) <==> sorted.to_multiset().count(time) > 0);
        assert(times.contains(time) <==> times.to_multiset().count(time) > 0);
    }
}

proof fn lemma_without_repeats(times: Seq<DailyTime>)
    requires
        times_sorted(times),
    ensures
        times_sorted(without_repeats(times)),
        without_repeats(times).no_duplicates(),
        forall|time: DailyTime| #[trigger]
            without_repeats(times).contains(time) <==> times.contains(time),
        times.len() > 0 ==> without_repeats(times).len() > 0 && without_repeats(times).last()
            == times.last(),
    decreases times.len(),
{
    if times.len() >= 2 {
        let head = times.drop_last();
        let kept = without_repeats(head);
        assert(times_sorted(head)) by {
            assert forall|i: int, j: int| 0 <= i <= j < head.len() implies #[trigger] head[i].0
                <= #[trigger] head[j].0 by {
                assert(times[i].0 <= times[j].0);
            }
        }
        lemma_without_repeats(head);
        let last = times.last();
        let previous = times[times.len() - 2];
        assert(head.last() == previous);
        let result = without_repeats(times);
        assert forall|time: DailyTime| #[trigger] result.contains(time) <==> times.contains(
            time,
        ) by {
            assert(kept.contains(time) <==> head.contains(time));
            if times.contains(time) {
                let at = choose|i: int| 0 <= i < times.len() && times[i] == time;
                if at < head.len() {
                    assert(head[at] == time);
                    let k = choose|i: int| 0 <= i < kept.len() && kept[i] == time;
                    assert(result[k] == time);
                } else if last == previous {
                    assert(head[head.len() - 1] == time);
                    let k = choose|i: int| 0 <= i < kept.len() && kept[i] == time;
                    assert(result[k] == time);
                } else {
                    assert(result[result.len() - 1] == time);
                }
            }
            if result.contains(time) {
                let k = choose|i: int| 0 <= i < result.len() && result[i] == time;
                if k < kept.len() {
                    assert(kept[k] == time);
                    let at = choose|i: int| 0 <= i < head.len() && head[i] == time;
                    assert(times[at] == time);
                } else {
                    assert(times[times.len() - 1] == time);
                }
            }
        }
        if last != previous {
            assert(times[times.len() - 2].0 <= times[times.len() - 1].0);
            assert(previous.0 < last.0);
            assert forall|i: int, j: int| 0 <= i <= j < result.len() implies #[trigger] result[i].0
                <= #[trigger] result[j].0 by {
                if j == kept.len() && i < kept.len() {
                    assert(kept[i].0 <= kept[kept.len() - 1].0);
                }
            }
            assert forall|i: int, j: int|
                0 <= i < result.len() && 0 <= j < result.len() && i != j implies result[i]
                != result[j] by {
                if i < kept.len() && j == kept.len() {
                    assert(kept[i].0 <= kept[kept.len() - 1].0);
                }
                if j < kept.len() && i == kept.len() {
                    assert(kept[j].0 <= kept[kept.len() - 1].0);
                }
            }
        }
    } else if times.len() == 1 {
        assert(without_repeats(times) =~= times);
    }
}

/// A schedule in the order of the day, with each time once, is settled.
pub proof fn lemma_settled_already(times: Seq<DailyTime>)
    requires
        times_sorted(times),
        times.no_duplicates(),
    ensures
        settled(times) == times,
{
    lemma_day_order(times, times);
    lemma_no_repeats(times);
}

proof fn lemma_no_repeats(times: Seq<DailyTime>)
    requires
        times.no_duplicates(),
    ensures
        without_repeats(times) == times,
    decreases times.len(),
{
    if times.len() >= 2 {
        let head = times.drop_last();
        assert forall|i: int, j: int|
            0 <= i < head.len() && 0 <= j < head.len() && i != j implies head[i] != head[j] by {
            assert(times[i] != times[j]);
        }
        lemma_no_repeats(head);
        assert(times[times.len() - 1] != times[times.len() - 2]);
        assert(head.push(times.last()) =~= times);
    }
}

/// What was saved is what is read: settings whose schedules are in order and
/// whose interval is one that can be set come back as they were.
pub proof fn law_saved_settings_are_read_back(accounts: Seq<AccountModel>, seconds: u64)
    requires
        forall|i: int|
            0 <= i < accounts.len() ==> times_sorted((#[trigger] accounts[i]).warmup_times)
                && accounts[i].warmup_times.no_duplicates(),
    ensures
        tidied_all(accounts) == accounts,
        stored_interval(refresh_interval(seconds)) == refresh_interval(seconds),
{
    assert forall|i: int| 0 <= i < accounts.len() implies #[trigger] tidied_all(accounts)[i]
        == accounts[i] by {
        lemma_settled_already(accounts[i].warmup_times);
    }
    assert(tidied_all(accounts) =~= accounts);
}

/// Reading settings that were made fit for use changes nothing more.
pub proof fn law_reading_twice_is_reading_once(accounts: Seq<AccountModel>, seconds: u64)
    ensures
        tidied_all(tidied_all(accounts)) == tidied_all(accounts),
        stored_interval(stored_interval(seconds)) == stored_interval(seconds),
{
    assert forall|i: int| 0 <= i < accounts.len() implies #[trigger] tidied_all(
        tidied_all(accounts),
    )[i] == tidied_all(accounts)[i] by {
        law_settled_times_are_in_order(accounts[i].warmup_times);
        lemma_settled_already(settled(accounts[i].warmup_times));
    }
    assert(tidied_all(tidied_all(accounts)) =~= tidied_all(accounts));
}

/// The accounts of settings that can be used have names, no two the same.
pub proof fn law_loaded_accounts_are_distinct(accounts: Seq<AccountModel>, i: int, j: int)
    requires
        ids_problem(accounts) is None,
        0 <= i < j < accounts.len(),
    ensures
        is_account_id(accounts[i].id),
        is_account_id(accounts[j].id),
        accounts[i].id != accounts[j].id,
    decreases accounts.len(),
{
    let before = accounts.drop_last();
    if j < accounts.len() - 1 {
        law_loaded_accounts_are_distinct(before, i, j);
        assert(before[i] == accounts[i]);
        assert(before[j] == accounts[j]);
    } else {
        lemma_ids_are_valid(before, i);
        assert(before[i] == accounts[i]);
        if accounts[i].id == accounts[j].id {
            assert(has_id(before, accounts.last().id));
        }
    }
}

proof fn lemma_ids_are_valid(accounts: Seq<AccountModel>, i: int)
    requires
        ids_problem(accounts) is None,
        0 <= i < accounts.len(),
    ensures
        is_account_id(accounts[i].id),
    decreases accounts.len(),
{
    if i < accounts.len() - 1 {
        lemma_ids_are_valid(accounts.drop_last(), i);
    }
}

/// The interval that is read back is the one that was stored, but at least five
/// seconds and at most an hour.
pub proof fn law_stored_intervals_are_bounded(seconds: u64)
    ensures
        5 <= seconds <= 3_600 ==> stored_interval(seconds) == seconds,
        seconds < 5 ==> stored_interval(seconds) == 5,
        seconds > 3_600 ==> stored_interval(seconds) == 3_600,
{
}

/// Settings can be used exactly where every account has a valid name and no two
/// have the same; the first account with a problem decides what is said, and an
/// invalid name weighs more than one that is taken.
pub proof fn law_settings_are_checked(accounts: Seq<AccountModel>, i: int)
    ensures
        ids_problem(accounts) is None <==> {
            &&& forall|j: int| 0 <= j < accounts.len() ==> is_account_id((#[trigger] accounts[j]).id)
            &&& forall|j: int, k: int|
                0 <= j < k < accounts.len() ==> (#[trigger] accounts[j]).id != (
                #[trigger] accounts[k]).id
        },
        (0 <= i < accounts.len() && ids_problem(accounts.take(i)) is None && !is_account_id(
            accounts[i].id,
        )) ==> ids_problem(accounts) == Some("Settings contain an invalid account ID"@),
        (0 <= i < accounts.len() && ids_problem(accounts.take(i)) is None && is_account_id(
            accounts[i].id,
        ) && (exists|j: int| 0 <= j < i && (#[trigger] accounts[j]).id == accounts[i].id))
            ==> ids_problem(accounts) == Some("Settings contain a duplicate account ID"@),
{
    lemma_ids_are_checked(accounts);
    if 0 <= i < accounts.len() && ids_problem(accounts.take(i)) is None {
        let upto = accounts.take(i + 1);
        assert(upto.drop_last() =~= accounts.take(i));
        assert(upto.last() == accounts[i]);
        if exists|j: int| 0 <= j < i && (#[trigger] accounts[j]).id == accounts[i].id {
            let j = choose|j: int| 0 <= j < i && (#[trigger] accounts[j]).id == accounts[i].id;
            assert(accounts.take(i)[j].id == accounts[i].id);
            assert(has_id(accounts.take(i), accounts[i].id));
        }
        if ids_problem(upto) is Some {
            lemma_problem_stays(accounts, i + 1);
        }
    }
}

proof fn lemma_ids_are_checked(accounts: Seq<AccountModel>)
    ensures
        ids_problem(accounts) is None <==> {
            &&& forall|j: int| 0 <= j < accounts.len() ==> is_account_id((#[trigger] accounts[j]).id)
            &&& forall|j: int, k: int|
                0 <= j < k < accounts.len() ==> (#[trigger] accounts[j]).id != (
                #[trigger] accounts[k]).id
        },
    decreases accounts.len(),
{
    if accounts.len() > 0 {
        let before = accounts.drop_last();
        let last = accounts.len() - 1;
        lemma_ids_are_checked(before);
        if ids_problem(accounts) is None {
            assert forall|j: int| 0 <= j < accounts.len() implies is_account_id(
                (#[trigger] accounts[j]).id,
            ) by {
                if j < last {
                    assert(before[j] == accounts[j]);
                }
            }
            assert forall|j: int, k: int| 0 <= j < k < accounts.len() implies (
            #[trigger] accounts[j]).id != (#[trigger] accounts[k]).id by {
                assert(before[j] == accounts[j]);
                if k < last {
                    assert(before[k] == accounts[k]);
                } else if accounts[j].id == accounts[k].id {
                    assert(has_id(before, accounts.last().id));
                }
            }
        } else if ids_problem(before) is Some {
            if (forall|j: int| 0 <= j < accounts.len() ==> is_account_id((#[trigger] accounts[j]).id))
                && (forall|j: int, k: int|
                0 <= j < k < accounts.len() ==> (#[trigger] accounts[j]).id != (
                #[trigger] accounts[k]).id) {
                assert forall|j: int| 0 <= j < before.len() implies is_account_id(
                    (#[trigger] before[j]).id,
                ) by {
                    assert(before[j] == accounts[j]);
                }
                assert forall|j: int, k: int| 0 <= j < k < before.len() implies (
                #[trigger] before[j]).id != (#[trigger] before[k]).id by {
                    assert(accounts[j].id != accounts[k].id);
                }
            }
        } else if is_account_id(accounts.last().id) {
            let j = choose|j: int|
                0 <= j < before.len() && (#[trigger] before[j]).id == accounts.last().id;
            assert(accounts[j].id == accounts[last].id);
        } else {
            assert(!is_account_id(accounts[last].id));
        }
    }
}

/// A directory is used exactly where its path leads to itself and it is no link; the
/// directory of an account is removed exactly where it is the one that it should be
/// and no link.
pub proof fn law_aliased_directories_are_refused(
    resolved: Result<bool, String>,
    link: Result<bool, String>,
)
    ensures
        directory_problem(resolved, link) is None <==> resolved == Ok::<bool, String>(true)
            && link == Ok::<bool, String>(false),
        removal_problem(resolved, link) is None <==> resolved == Ok::<bool, String>(true) && link
            == Ok::<bool, String>(false),
{
}

/// The directory of the app is the one that its own variable names, wherever that is
/// set; else it lies where the system keeps such things, and nowhere without the
/// variable that says where.
pub proof fn law_the_app_has_a_directory(platform: Platform, set: RootVariables)
    ensures
        set.profile ==> root_choice(platform, set) == Some((RootVariable::Profile, ""@)),
        !set.profile ==> match platform {
            Platform::Windows => root_choice(platform, set) is Some <==> set.local_app_data,
            Platform::MacOs => root_choice(platform, set) is Some <==> set.home,
            Platform::Other => root_choice(platform, set) is Some <==> set.config_home || set.home,
        },
        !set.profile ==> (root_choice(platform, set) matches Some((variable, _)) ==> match platform {
            Platform::Windows => variable == RootVariable::LocalAppData,
            Platform::MacOs => variable == RootVariable::Home,
            Platform::Other => variable == if set.config_home {
                RootVariable::ConfigHome
            } else {
                RootVariable::Home
            },
        }),
{
}

/// Settings are read from their own file where there is one, else from the one that
/// was to replace it, else from the backup.
pub proof fn law_settings_are_found(settings: bool, temporary: bool, backup: bool)
    ensures
        file_to_read(settings, temporary, backup) == Some(SettingsFile::Settings) <==> settings,
        file_to_read(settings, temporary, backup) == Some(SettingsFile::Temporary) <==> !settings
            && temporary,
        file_to_read(settings, temporary, backup) == Some(SettingsFile::Backup) <==> !settings
            && !temporary && backup,
        file_to_read(settings, temporary, backup) is None <==> !settings && !temporary && !backup,
{
}

/// How many steps of saving are left at most.
pub open spec fn save_steps_left(step: SaveStepModel) -> nat {
    match step {
        SaveStepModel::Write => 5,
        SaveStepModel::RemoveBackup => 4,
        SaveStepModel::BackUp => 3,
        SaveStepModel::Replace => 2,
        SaveStepModel::Restore(_) => 1,
        SaveStepModel::Discard => 1,
        SaveStepModel::Finished(_) => 0,
    }
}

/// Saving comes to an end after a few steps. Where no step goes wrong it succeeds;
/// where writing, making room or replacing goes wrong, that is what is said, and a
/// backup that is left over is no problem.
pub proof fn law_saving_comes_to_an_end(
    step: SaveStepModel,
    problem: Seq<char>,
    settings: bool,
    backup: bool,
)
    ensures
        !(step is Finished) ==> save_steps_left(step_after(step, None, settings, backup))
            < save_steps_left(step) && save_steps_left(
            step_after(step, Some(problem), settings, backup),
        ) < save_steps_left(step),
        !(step is Restore) && !(step is Finished) ==> (step_after(step, None, settings, backup)
            matches SaveStepModel::Finished(outcome) ==> outcome is None),
        step is Write ==> step_after(step, Some(problem), settings, backup)
            == SaveStepModel::Finished(Some("Could not save settings: "@ + problem)),
        step is RemoveBackup || step is BackUp ==> step_after(
            step,
            Some(problem),
            settings,
            backup,
        ) == SaveStepModel::Finished(Some("Could not rotate settings: "@ + problem)),
        step is Replace && backup ==> step_after(step, Some(problem), settings, backup)
            == SaveStepModel::Restore("Could not replace settings: "@ + problem),
        step is Replace && !backup ==> step_after(step, Some(problem), settings, backup)
            == SaveStepModel::Finished(Some("Could not replace settings: "@ + problem)),
        step is Discard ==> step_after(step, Some(problem), settings, backup)
            == SaveStepModel::Finished(None),
        step matches SaveStepModel::Restore(error) ==> step_after(step, None, settings, backup)
            == SaveStepModel::Finished(Some(error)) && step_after(
            step,
            Some(problem),
            settings,
            backup,
        ) == SaveStepModel::Finished(Some(error)),
{
}

/// First settings are saved by writing them and putting them in their place; nothing
/// is rotated where there was nothing before.
pub proof fn law_first_settings_are_saved(disk: Disk, new: Seq<u8>, written: Disk, after: Disk)
    requires
        disk.settings is None,
        disk.backup is None,
        may_become(disk, SaveStepModel::Write, false, new, written),
        may_become(written, SaveStepModel::Replace, false, new, after),
    ensures
        step_after(
            SaveStepModel::Write,
            None,
            written.settings is Some,
            written.backup is Some,
        ) is Replace,
        step_after(
            SaveStepModel::Replace,
            None,
            after.settings is Some,
            after.backup is Some,
        ) == SaveStepModel::Finished(None),
        after.read() == Some(new),
{
}

} // verus!
