//! The configuration, from the variables of the environment.

use vstd::prelude::*;

use crate::text;
use crate::text::{chars_of, parse_i64, parse_u16, same_text, split_chars, string_of, to_upper,
    trim_chars};

verus! {

// ---------------------------------------------------------------- symbol list

/// The symbol name that a fragment of the list stands for.
pub open spec fn symbol_name(fragment: Seq<char>) -> Seq<char> {
    text::upper(text::trim(fragment))
}

/// The symbol names of the fragments: each once, where it first occurs.
pub open spec fn symbol_names(fragments: Seq<Seq<char>>) -> Seq<Seq<char>>
    decreases fragments.len(),
{
    if fragments.len() == 0 {
        Seq::empty()
    } else {
        let before = symbol_names(fragments.drop_last());
        let name = symbol_name(fragments.last());
        if name.len() == 0 || before.contains(name) {
            before
        } else {
            before.push(name)
        }
    }
}

/// The symbol names of a comma-separated list.
pub open spec fn symbol_list(raw: Seq<char>) -> Seq<Seq<char>> {
    symbol_names(text::split(raw, ','))
}

fn holds(list: &Vec<String>, name: &String) -> (r: bool)
    ensures
        r == text::texts(list@).contains(name@),
{
    let ghost names = text::texts(list@);
    for i in 0..list.len()
        invariant
            names == text::texts(list@),
            forall|k: int| 0 <= k < i ==> #[trigger] names[k] != name@,
    {
        if same_text(list[i].as_str(), name.as_str()) {
            assert(names[i as int] == name@);
            return true;
        }
        assert(names[i as int] != name@);
    }
    false
}

/// Reads a comma-separated list of symbol names. Names are trimmed and put
/// into upper case, empty fragments are dropped, and of equal names the first
/// is kept.
pub fn parse_symbol_list(raw: &str) -> (out: Vec<String>)
    ensures
        text::texts(out@) == symbol_list(raw@),
{
    let fragments = split_chars(&chars_of(raw), ',');
    let ghost all = text::views(fragments@);
    let mut out: Vec<String> = Vec::new();
    assert(text::texts(out@) =~= symbol_names(all.take(0)));
    for i in 0..fragments.len()
        invariant
            all == text::views(fragments@),
            text::texts(out@) == symbol_names(all.take(i as int)),
    {
        assert(all.take(i + 1).drop_last() =~= all.take(i as int));
        assert(all.take(i + 1).last() == fragments@[i as int]@);
        let chars = to_upper(&trim_chars(&fragments[i]));
        let name = string_of(&chars);
        if chars.len() > 0 && !holds(&out, &name) {
            let ghost before = out@;
            out.push(name);
            assert(text::texts(out@) =~= text::texts(before).push(name@));
        }
    }
    assert(all.take(fragments@.len() as int) =~= all);
    out
}

// -------------------------------------------------------- laws of the list

proof fn lemma_trim_start(s: Seq<char>)
    ensures
        text::trim_start(s).len() > 0 ==> !text::is_white_space(text::trim_start(s)[0]),
        text::trim_start(s).len() <= s.len(),
        forall|c: char| text::trim_start(s).contains(c) ==> s.contains(c),
    decreases s.len(),
{
    if s.len() > 0 && text::is_white_space(s[0]) {
        let rest = s.drop_first();
        lemma_trim_start(rest);
        assert forall|c: char| rest.contains(c) implies s.contains(c) by {
            let k = choose|k: int| 0 <= k < rest.len() && rest[k] == c;
            assert(s[k + 1] == c);
        }
    }
}

proof fn lemma_trim_end(s: Seq<char>)
    ensures
        text::trim_end(s).len() > 0 ==> !text::is_white_space(text::trim_end(s).last()),
        text::trim_end(s).len() > 0 ==> s.len() > 0 && text::trim_end(s)[0] == s[0],
        forall|c: char| text::trim_end(s).contains(c) ==> s.contains(c),
    decreases s.len(),
{
    if s.len() > 0 && text::is_white_space(s.last()) {
        let rest = s.drop_last();
        lemma_trim_end(rest);
        assert forall|c: char| rest.contains(c) implies s.contains(c) by {
            let k = choose|k: int| 0 <= k < rest.len() && rest[k] == c;
            assert(s[k] == c);
        }
    }
}

/// A name is in the form that the list gives names.
pub open spec fn is_clean(name: Seq<char>) -> bool {
    &&& name.len() > 0
    &&& text::trim(name) == name
    &&& text::upper(name) == name
    &&& !name.contains(',')
}

proof fn lemma_symbol_name_is_clean(fragment: Seq<char>)
    requires
        !fragment.contains(','),
        symbol_name(fragment).len() > 0,
    ensures
        is_clean(symbol_name(fragment)),
        symbol_name(symbol_name(fragment)) == symbol_name(fragment),
{
    let front = text::trim_start(fragment);
    let trimmed = text::trim(fragment);
    let name = symbol_name(fragment);
    lemma_trim_start(fragment);
    lemma_trim_end(front);
    assert(name.len() == trimmed.len());
    assert(name[0] == text::upper_char(trimmed[0]));
    assert(name.last() == text::upper_char(trimmed.last()));
    assert(!text::is_white_space(name[0]));
    assert(!text::is_white_space(name.last()));
    assert(text::trim_start(name) == name);
    assert(text::trim(name) == name);
    assert(text::upper(name) =~= name);
    if name.contains(',') {
        let k = choose|k: int| 0 <= k < name.len() && name[k] == ',';
        assert(name[k] == text::upper_char(trimmed[k]));
        assert(trimmed[k] == ',');
        assert(trimmed.contains(','));
        assert(false);
    }
}

proof fn lemma_names_are_clean(fragments: Seq<Seq<char>>)
    requires
        forall|i: int| 0 <= i < fragments.len() ==> !(#[trigger] fragments[i]).contains(','),
    ensures
        forall|i: int|
            0 <= i < symbol_names(fragments).len() ==> is_clean(
                #[trigger] symbol_names(fragments)[i],
            ),
        symbol_names(fragments).no_duplicates(),
    decreases fragments.len(),
{
    if fragments.len() > 0 {
        let init = fragments.drop_last();
        assert forall|i: int| 0 <= i < init.len() implies !(#[trigger] init[i]).contains(',') by {
            assert(init[i] == fragments[i]);
        }
        lemma_names_are_clean(init);
        let last = fragments[fragments.len() - 1];
        assert(!last.contains(','));
        if symbol_name(last).len() > 0 {
            lemma_symbol_name_is_clean(last);
        }
        let before = symbol_names(init);
        let name = symbol_name(last);
        if name.len() > 0 && !before.contains(name) {
            let all = symbol_names(fragments);
            assert(all == before.push(name));
            assert forall|i: int| 0 <= i < all.len() implies is_clean(#[trigger] all[i]) by {
                if i < before.len() {
                    assert(all[i] == before[i]);
                }
            }
            assert forall|i: int, j: int|
                0 <= i < all.len() && 0 <= j < all.len() && i != j implies all[i] != all[j] by {
                if i < before.len() && j < before.len() {
                    assert(before[i] != before[j]);
                } else if i < before.len() {
                    assert(before.contains(before[i]));
                } else {
                    assert(before.contains(before[j]));
                }
            }
        }
    }
}

/// No name of a list is empty, has white space at an end, holds a lower-case
/// ASCII letter or a comma, or occurs twice.
pub proof fn law_symbol_list_is_clean(raw: Seq<char>)
    ensures
        forall|i: int| 0 <= i < symbol_list(raw).len() ==> is_clean(#[trigger] symbol_list(raw)[i]),
        symbol_list(raw).no_duplicates(),
{
    text::lemma_split_pieces(raw, ',');
    lemma_names_are_clean(text::split(raw, ','));
}

proof fn lemma_prefix_is_kept(fragments: Seq<Seq<char>>, i: int)
    requires
        0 <= i <= fragments.len(),
    ensures
        symbol_names(fragments.take(i)).len() <= symbol_names(fragments).len(),
        forall|k: int|
            0 <= k < symbol_names(fragments.take(i)).len() ==> (#[trigger] symbol_names(
                fragments,
            )[k]) == symbol_names(fragments.take(i))[k],
    decreases fragments.len(),
{
    if i == fragments.len() {
        assert(fragments.take(i) =~= fragments);
    } else {
        let init = fragments.drop_last();
        lemma_prefix_is_kept(init, i);
        assert(init.take(i) =~= fragments.take(i));
    }
}

proof fn lemma_name_has_a_source(fragments: Seq<Seq<char>>, name: Seq<char>)
    requires
        symbol_names(fragments).contains(name),
    ensures
        exists|j: int| 0 <= j < fragments.len() && symbol_name(#[trigger] fragments[j]) == name,
    decreases fragments.len(),
{
    if fragments.len() > 0 {
        let init = fragments.drop_last();
        let before = symbol_names(init);
        if before.contains(name) {
            lemma_name_has_a_source(init, name);
            let j = choose|j: int| 0 <= j < init.len() && symbol_name(#[trigger] init[j]) == name;
            assert(fragments[j] == init[j]);
        } else {
            let k = choose|k: int|
                0 <= k < symbol_names(fragments).len() && symbol_names(fragments)[k] == name;
            if k < before.len() {
                assert(before[k] == name);
            }
            assert(symbol_name(fragments[fragments.len() - 1]) == name);
        }
    }
}

/// The names keep the order of the list: a name stands after the names of the
/// fragments before its first occurrence, and before all others.
pub proof fn law_symbol_list_keeps_first_occurrences(raw: Seq<char>, i: int)
    requires
        0 <= i < text::split(raw, ',').len(),
        symbol_name(text::split(raw, ',')[i]).len() > 0,
        forall|j: int|
            0 <= j < i ==> symbol_name(#[trigger] text::split(raw, ',')[j]) != symbol_name(
                text::split(raw, ',')[i],
            ),
    ensures
        ({
            let place = symbol_names(text::split(raw, ',').take(i)).len() as int;
            &&& place < symbol_list(raw).len()
            &&& symbol_list(raw)[place] == symbol_name(text::split(raw, ',')[i])
        }),
{
    let fragments = text::split(raw, ',');
    let name = symbol_name(fragments[i]);
    let before = symbol_names(fragments.take(i));
    let upto = fragments.take(i + 1);
    assert(upto.drop_last() =~= fragments.take(i));
    assert(upto.last() == fragments[i]);
    if before.contains(name) {
        lemma_name_has_a_source(fragments.take(i), name);
        let j = choose|j: int|
            0 <= j < fragments.take(i).len() && symbol_name(#[trigger] fragments.take(i)[j])
                == name;
        assert(fragments[j] == fragments.take(i)[j]);
        assert(false);
    }
    assert(symbol_names(upto) == before.push(name));
    lemma_prefix_is_kept(fragments, i + 1);
    assert(symbol_names(fragments)[before.len() as int] == symbol_names(upto)[before.len() as int]);
}

proof fn lemma_clean_names_are_kept(names: Seq<Seq<char>>)
    requires
        names.no_duplicates(),
        forall|i: int| 0 <= i < names.len() ==> is_clean(#[trigger] names[i]),
    ensures
        symbol_names(names) == names,
    decreases names.len(),
{
    if names.len() > 0 {
        let init = names.drop_last();
        let n = names.len() - 1;
        assert forall|i: int| 0 <= i < init.len() implies is_clean(#[trigger] init[i]) by {
            assert(init[i] == names[i]);
        }
        lemma_clean_names_are_kept(init);
        assert(is_clean(names[n]));
        assert(symbol_name(names[n]) == names[n]);
        if init.contains(names[n]) {
            let k = choose|k: int| 0 <= k < init.len() && init[k] == names[n];
            assert(names[k] != names[n]);
        }
        assert(init.push(names.last()) =~= names);
    }
}

/// To write the names of a list down again, with commas between, and to read
/// that, gives the same names.
pub proof fn law_symbol_list_reads_back(raw: Seq<char>)
    ensures
        symbol_list(text::join(symbol_list(raw), seq![','])) == symbol_list(raw),
{
    let names = symbol_list(raw);
    law_symbol_list_is_clean(raw);
    assert forall|i: int| 0 <= i < names.len() implies !(#[trigger] names[i]).contains(',') by {
        assert(is_clean(names[i]));
    }
    if names.len() > 0 {
        text::lemma_split_join(names, ',');
        lemma_clean_names_are_kept(names);
    } else {
        let fragments = text::split(Seq::empty(), ',');
        assert(fragments.drop_last() =~= Seq::empty());
        assert(fragments.last() == Seq::<char>::empty());
        assert(text::trim(Seq::<char>::empty()) =~= Seq::empty());
        assert(symbol_name(fragments.last()).len() == 0);
        assert(symbol_names(fragments.drop_last()) =~= names);
    }
}

// -------------------------------------------------------------- configuration

/// The value of the refresh token in an environment file that was not filled
/// in.
pub open spec fn refresh_token_placeholder() -> Seq<char> {
    "your_refresh_token_here"@
}

/// The variables of the environment, as far as they are set.
#[derive(Debug)]
pub struct EnvVars {
    pub client_id: Option<String>,
    pub client_secret: Option<String>,
    pub access_token: Option<String>,
    pub refresh_token: Option<String>,
    pub account_id: Option<String>,
    pub host: Option<String>,
    pub port: Option<String>,
    pub api_addr: Option<String>,
    pub subscribe_symbols: Option<String>,
}

pub struct EnvView {
    pub client_id: Option<Seq<char>>,
    pub client_secret: Option<Seq<char>>,
    pub access_token: Option<Seq<char>>,
    pub refresh_token: Option<Seq<char>>,
    pub account_id: Option<Seq<char>>,
    pub host: Option<Seq<char>>,
    pub port: Option<Seq<char>>,
    pub api_addr: Option<Seq<char>>,
    pub subscribe_symbols: Option<Seq<char>>,
}

impl EnvVars {
    pub open spec fn view(&self) -> EnvView {
        EnvView {
            client_id: text::opt_text(self.client_id),
            client_secret: text::opt_text(self.client_secret),
            access_token: text::opt_text(self.access_token),
            refresh_token: text::opt_text(self.refresh_token),
            account_id: text::opt_text(self.account_id),
            host: text::opt_text(self.host),
            port: text::opt_text(self.port),
            api_addr: text::opt_text(self.api_addr),
            subscribe_symbols: text::opt_text(self.subscribe_symbols),
        }
    }

    /// The text of the address that the API is to be served at, which the
    /// caller reads as a socket address.
    pub fn api_addr_text(&self) -> (r: String)
        ensures
            r@ == api_addr_of(self@),
    {
        match &self.api_addr {
            Some(addr) => addr.clone(),
            None => "127.0.0.1:3000".to_owned(),
        }
    }
}

/// Why the configuration cannot be had.
#[derive(Clone, Copy, Debug, PartialEq, Eq, Structural)]
pub enum ConfigError {
    MissingClientId,
    MissingClientSecret,
    MissingAccessToken,
    MissingAccountId,
    InvalidAccountId,
    InvalidPort,
    InvalidApiAddr,
}

/// The configuration. The address of the API is kept as text.
#[derive(Debug)]
pub struct Config {
    pub client_id: String,
    pub client_secret: String,
    pub access_token: String,
    /// The token to get a new access token with.
    pub refresh_token: Option<String>,
    pub account_id: i64,
    pub host: String,
    pub port: u16,
    pub api_addr: String,
    /// The names of the symbols whose ticks are asked for.
    pub subscribe_symbols: Vec<String>,
}

pub struct ConfigView {
    pub client_id: Seq<char>,
    pub client_secret: Seq<char>,
    pub access_token: Seq<char>,
    pub refresh_token: Option<Seq<char>>,
    pub account_id: i64,
    pub host: Seq<char>,
    pub port: u16,
    pub api_addr: Seq<char>,
    pub subscribe_symbols: Seq<Seq<char>>,
}

/// The refresh token, unless it is empty or was not filled in.
pub open spec fn usable_refresh_token(v: Option<Seq<char>>) -> Option<Seq<char>> {
    match v {
        Some(token) => if token.len() == 0 || token == refresh_token_placeholder() {
            None
        } else {
            Some(token)
        },
        None => None,
    }
}

/// The text of the address that the API is to be served at.
pub open spec fn api_addr_of(env: EnvView) -> Seq<char> {
    env.api_addr.unwrap_or("127.0.0.1:3000"@)
}

/// The configuration that the variables give, or what is wrong with the first
/// of them that is missing or cannot be read. Whether the address of the API
/// is that of a socket is told.
pub open spec fn config_of(env: EnvView, api_addr_is_valid: bool) -> Result<ConfigView, ConfigError> {
    let port_text = env.port.unwrap_or("5035"@);
    if env.client_id is None {
        Err(ConfigError::MissingClientId)
    } else if env.client_secret is None {
        Err(ConfigError::MissingClientSecret)
    } else if env.access_token is None {
        Err(ConfigError::MissingAccessToken)
    } else if env.account_id is None {
        Err(ConfigError::MissingAccountId)
    } else if text::text_i64(env.account_id->0) is None {
        Err(ConfigError::InvalidAccountId)
    } else if text::text_u16(port_text) is None {
        Err(ConfigError::InvalidPort)
    } else if !api_addr_is_valid {
        Err(ConfigError::InvalidApiAddr)
    } else {
        Ok(
            ConfigView {
                client_id: env.client_id->0,
                client_secret: env.client_secret->0,
                access_token: env.access_token->0,
                refresh_token: usable_refresh_token(env.refresh_token),
                account_id: text::text_i64(env.account_id->0)->0,
                host: env.host.unwrap_or("demo.ctraderapi.com"@),
                port: text::text_u16(port_text)->0,
                api_addr: api_addr_of(env),
                subscribe_symbols: symbol_list(
                    env.subscribe_symbols.unwrap_or(Seq::empty()),
                ),
            },
        )
    }
}

fn or_default(value: Option<String>, default: &str) -> (r: String)
    ensures
        r@ == text::opt_text(value).unwrap_or(default@),
{
    match value {
        Some(v) => v,
        None => default.to_owned(),
    }
}

impl Config {
    pub open spec fn view(&self) -> ConfigView {
        ConfigView {
            client_id: self.client_id@,
            client_secret: self.client_secret@,
            access_token: self.access_token@,
            refresh_token: text::opt_text(self.refresh_token),
            account_id: self.account_id,
            host: self.host@,
            port: self.port,
            api_addr: self.api_addr@,
            subscribe_symbols: text::texts(self.subscribe_symbols@),
        }
    }

    /// The configuration that the variables of the environment give.
    /// `api_addr_is_valid` is whether [`EnvVars::api_addr_text`] reads as a
    /// socket address.
    pub fn from_env(env: EnvVars, api_addr_is_valid: bool) -> (r: Result<Config, ConfigError>)
        ensures
            match config_of(env@, api_addr_is_valid) {
                Ok(config) => r matches Ok(c) && c@ == config,
                Err(e) => r == Err::<Config, ConfigError>(e),
            },
    {
        let ghost view = env@;
        let refresh_token = match env.refresh_token {
            Some(token) => {
                proof {
                    reveal_strlit("");
                }
                if same_text(token.as_str(), "") || same_text(
                    token.as_str(),
                    "your_refresh_token_here",
                ) {
                    None
                } else {
                    Some(token)
                }
            },
            None => None,
        };
        assert(text::opt_text(refresh_token) == usable_refresh_token(view.refresh_token)) by {
            reveal_strlit("");
            assert(view.refresh_token matches Some(t) ==> (t.len() == 0 <==> t =~= ""@));
        }
        let subscribe_symbols = match &env.subscribe_symbols {
            Some(raw) => parse_symbol_list(raw.as_str()),
            None => parse_symbol_list(""),
        };
        assert(text::texts(subscribe_symbols@) == symbol_list(
            view.subscribe_symbols.unwrap_or(Seq::empty()),
        )) by {
            reveal_strlit("");
            assert(""@ =~= Seq::empty());
        }
        let client_id = match env.client_id {
            Some(v) => v,
            None => {
                return Err(ConfigError::MissingClientId);
            },
        };
        let client_secret = match env.client_secret {
            Some(v) => v,
            None => {
                return Err(ConfigError::MissingClientSecret);
            },
        };
        let access_token = match env.access_token {
            Some(v) => v,
            None => {
                return Err(ConfigError::MissingAccessToken);
            },
        };
        let account_id = match env.account_id {
            Some(v) => match parse_i64(v.as_str()) {
                Some(id) => id,
                None => {
                    return Err(ConfigError::InvalidAccountId);
                },
            },
            None => {
                return Err(ConfigError::MissingAccountId);
            },
        };
        let host = or_default(env.host, "demo.ctraderapi.com");
        let port = match parse_u16(or_default(env.port, "5035").as_str()) {
            Some(n) => n,
            None => {
                return Err(ConfigError::InvalidPort);
            },
        };
        if !api_addr_is_valid {
            return Err(ConfigError::InvalidApiAddr);
        }
        let api_addr = or_default(env.api_addr, "127.0.0.1:3000");
        Ok(
            Config {
                client_id,
                client_secret,
                access_token,
                refresh_token,
                account_id,
                host,
                port,
                api_addr,
                subscribe_symbols,
            },
        )
    }
}

// --------------------------------------------------------------------- laws

/// The configuration has each variable as it is set, or its default. The
/// account and the port are the numbers that their texts read as.
pub proof fn law_configuration_is_what_is_set(env: EnvView, api_addr_is_valid: bool)
    ensures
        config_of(env, api_addr_is_valid) matches Ok(config) ==> {
            &&& env.client_id == Some(config.client_id)
            &&& env.client_secret == Some(config.client_secret)
            &&& env.access_token == Some(config.access_token)
            &&& env.account_id matches Some(t) && text::text_i64(t) == Some(config.account_id)
            &&& env.host matches Some(t) ==> config.host == t
            &&& env.host is None ==> config.host == "demo.ctraderapi.com"@
            &&& env.port matches Some(t) ==> text::text_u16(t) == Some(config.port)
            &&& env.port is None ==> config.port == 5035
            &&& env.api_addr matches Some(t) ==> config.api_addr == t
            &&& env.api_addr is None ==> config.api_addr == "127.0.0.1:3000"@
            &&& config.api_addr == api_addr_of(env)
            &&& env.subscribe_symbols matches Some(t) ==> config.subscribe_symbols == symbol_list(t)
            &&& env.subscribe_symbols is None ==> config.subscribe_symbols.len() == 0
            &&& api_addr_is_valid
        },
{
    lemma_default_port();
    lemma_no_symbols();
}

proof fn lemma_default_port()
    ensures
        text::text_u16("5035"@) == Some(5035u16),
{
    reveal_strlit("5035");
    let s = "5035"@;
    assert(s.len() == 4 && s[0] == '5' && s[1] == '0' && s[2] == '3' && s[3] == '5');
    assert(text::all_digits(s));
    reveal_with_fuel(text::digits_value, 5);
    assert(text::digits_value(s) == 5035);
}

proof fn lemma_no_symbols()
    ensures
        symbol_list(Seq::empty()).len() == 0,
{
    let fragments = text::split(Seq::empty(), ',');
    reveal_with_fuel(symbol_names, 2);
    assert(fragments.drop_last() =~= Seq::empty());
    assert(fragments.last() == Seq::<char>::empty());
    assert(text::trim(Seq::<char>::empty()) =~= Seq::empty());
    assert(symbol_name(fragments.last()).len() == 0);
}

/// A refresh token counts as it is set, unless it is empty or was not filled
/// in.
pub proof fn law_refresh_token_is_usable(env: EnvView, api_addr_is_valid: bool)
    ensures
        config_of(env, api_addr_is_valid) matches Ok(config) ==> match env.refresh_token {
            Some(token) => if token.len() == 0 || token == "your_refresh_token_here"@ {
                config.refresh_token is None
            } else {
                config.refresh_token == Some(token)
            },
            None => config.refresh_token is None,
        },
{
}

/// What is wrong with the first variable that is missing or cannot be read is
/// why there is no configuration; where nothing is wrong there is one.
pub proof fn law_first_fault_is_told(env: EnvView, api_addr_is_valid: bool)
    ensures
        ({
            let account = match env.account_id {
                Some(t) => text::text_i64(t) is Some,
                None => false,
            };
            let port = match env.port {
                Some(t) => text::text_u16(t) is Some,
                None => true,
            };
            let keys = env.client_id is Some && env.client_secret is Some && env.access_token
                is Some;
            match config_of(env, api_addr_is_valid) {
                Ok(_) => keys && account && port && api_addr_is_valid,
                Err(ConfigError::MissingClientId) => env.client_id is None,
                Err(ConfigError::MissingClientSecret) => env.client_id is Some && env.client_secret
                    is None,
                Err(ConfigError::MissingAccessToken) => env.client_id is Some && env.client_secret
                    is Some && env.access_token is None,
                Err(ConfigError::MissingAccountId) => keys && env.account_id is None,
                Err(ConfigError::InvalidAccountId) => keys && env.account_id is Some && !account,
                Err(ConfigError::InvalidPort) => keys && account && !port,
                Err(ConfigError::InvalidApiAddr) => keys && account && port && !api_addr_is_valid,
            }
        }),
{
    lemma_default_port();
}

/// A name of a symbol list is one of the fragments between the commas, without
/// the white space at its ends and in upper case.
pub proof fn law_symbol_names_are_fragments(raw: Seq<char>, name: Seq<char>)
    ensures
        symbol_list(raw).contains(name) <==> name.len() > 0 && exists|j: int|
            0 <= j < text::split(raw, ',').len() && text::upper(
                text::trim(#[trigger] text::split(raw, ',')[j]),
            ) == name,
{
    let fragments = text::split(raw, ',');
    if symbol_list(raw).contains(name) {
        lemma_name_has_a_source(fragments, name);
        let j = choose|j: int| 0 <= j < fragments.len() && symbol_name(#[trigger] fragments[j]) == name;
        assert(text::upper(text::trim(fragments[j])) == name);
        law_symbol_list_is_clean(raw);
        let k = choose|k: int| 0 <= k < symbol_list(raw).len() && symbol_list(raw)[k] == name;
        assert(is_clean(symbol_list(raw)[k]));
    }
    if name.len() > 0 && exists|j: int|
        0 <= j < fragments.len() && text::upper(text::trim(#[trigger] fragments[j])) == name {
        let j = choose|j: int|
            0 <= j < fragments.len() && text::upper(text::trim(#[trigger] fragments[j])) == name;
        assert(symbol_name(fragments[j]) == name);
        lemma_fragment_is_named(fragments, j);
    }
}

proof fn lemma_fragment_is_named(fragments: Seq<Seq<char>>, j: int)
    requires
        0 <= j < fragments.len(),
        symbol_name(fragments[j]).len() > 0,
    ensures
        symbol_names(fragments).contains(symbol_name(fragments[j])),
    decreases fragments.len(),
{
    let name = symbol_name(fragments[j]);
    let init = fragments.drop_last();
    let before = symbol_names(init);
    let all = symbol_names(fragments);
    if j < init.len() {
        assert(init[j] == fragments[j]);
        lemma_fragment_is_named(init, j);
        let k = choose|k: int| 0 <= k < before.len() && before[k] == name;
        assert(all[k] == name);
    } else if before.contains(name) {
        let k = choose|k: int| 0 <= k < before.len() && before[k] == name;
        assert(all[k] == name);
    } else {
        assert(all[before.len() as int] == name);
    }
}

} // verus!
