//! The server's configuration and the checks that gate its start.

use crate::text::{
    all_digits, chars_of, decimal, find_last, is_digit, last_index_of, lemma_decimal,
    lemma_last_index_of, lemma_last_index_of_split, number, parse_number, substring,
};
use vstd::prelude::*;

verus! {

/// Where the server listens and what it serves.
#[derive(Debug, PartialEq, Eq)]
pub struct HostConfig {
    pub ip: String,
    pub port: String,
    pub root: String,
    pub index: String,
}

/// Settings of the running program that do not concern the host.
#[derive(Debug, PartialEq, Eq)]
pub struct AppConfig {
    pub verbose: bool,
}

/// The whole configuration.
#[derive(Debug, PartialEq, Eq)]
pub struct Config {
    pub host: HostConfig,
    pub cli: AppConfig,
}

/// What a `HostConfig` holds, as character sequences.
pub struct HostModel {
    pub ip: Seq<char>,
    pub port: Seq<char>,
    pub root: Seq<char>,
    pub index: Seq<char>,
}

/// What a `Config` holds.
pub struct ConfigModel {
    pub host: HostModel,
    pub verbose: bool,
}

impl View for HostConfig {
    type V = HostModel;

    open spec fn view(&self) -> HostModel {
        HostModel { ip: self.ip@, port: self.port@, root: self.root@, index: self.index@ }
    }
}

impl View for Config {
    type V = ConfigModel;

    open spec fn view(&self) -> ConfigModel {
        ConfigModel { host: self.host@, verbose: self.cli.verbose }
    }
}

impl Clone for HostConfig {
    fn clone(&self) -> (copy: Self)
        ensures
            copy == *self,
    {
        HostConfig {
            ip: self.ip.clone(),
            port: self.port.clone(),
            root: self.root.clone(),
            index: self.index.clone(),
        }
    }
}

impl Clone for AppConfig {
    fn clone(&self) -> (copy: Self)
        ensures
            copy == *self,
    {
        AppConfig { verbose: self.verbose }
    }
}

impl Clone for Config {
    fn clone(&self) -> (copy: Self)
        ensures
            copy == *self,
    {
        Config { host: self.host.clone(), cli: self.cli.clone() }
    }
}

/// The configuration that was loaded into `slot`.
pub fn get_config(slot: &Option<Config>) -> (config: Config)
    requires
        slot is Some,
    ensures
        Some(config) == *slot,
{
    slot.as_ref().unwrap().clone()
}

/// The path of the file `name` under the directory `root`.
pub open spec fn path_under(root: Seq<char>, name: Seq<char>) -> Seq<char> {
    root + seq!['/'] + name
}

/// The address and the port as one socket address.
pub open spec fn socket_text(host: HostModel) -> Seq<char> {
    host.ip + seq![':'] + host.port
}

impl HostConfig {
    /// The socket address to listen on: the address, a colon, the port.
    pub fn socket_address(&self) -> (address: String)
        ensures
            address@ == socket_text(self@),
    {
        proof {
            reveal_strlit(":");
        }
        let mut address = self.ip.clone();
        address.append(":");
        address.append(self.port.as_str());
        address
    }

    /// The path of the file `name` under the served directory.
    pub fn path_of(&self, name: &str) -> (path: String)
        ensures
            path@ == path_under(self.root@, name@),
    {
        proof {
            reveal_strlit("/");
        }
        let mut path = self.root.clone();
        path.append("/");
        path.append(name);
        path
    }

    /// The path of the index file.
    pub fn index_path(&self) -> (path: String)
        ensures
            path@ == path_under(self.root@, self.index@),
    {
        self.path_of(self.index.as_str())
    }
}

// ---------------------------------------------------------------------------
// The address
// ---------------------------------------------------------------------------

/// One field of a dotted quad: one to three digits that denote a number up
/// to 255, with no zero in front of another digit.
pub open spec fn is_octet(s: Seq<char>) -> bool {
    &&& 1 <= s.len() <= 3
    &&& all_digits(s)
    &&& (s.len() > 1 ==> s[0] != '0')
    &&& number(s) <= 255
}

/// The four fields `a`, `b`, `c` and `d` with a dot between each two.
pub open spec fn dotted_quad(a: Seq<char>, b: Seq<char>, c: Seq<char>, d: Seq<char>) -> Seq<char> {
    a + seq!['.'] + b + seq!['.'] + c + seq!['.'] + d
}

/// Whether `s` is an IPv4 address in dotted-quad notation: four octets with
/// a dot between each two, and nothing else.
pub open spec fn is_ipv4(s: Seq<char>) -> bool {
    exists|a: Seq<char>, b: Seq<char>, c: Seq<char>, d: Seq<char>|
        #![trigger dotted_quad(a, b, c, d)]
        is_octet(a) && is_octet(b) && is_octet(c) && is_octet(d) && s == dotted_quad(a, b, c, d)
}

/// Where the dots of a dotted quad stand, and what stands between them.
proof fn lemma_quad_shape(a: Seq<char>, b: Seq<char>, c: Seq<char>, d: Seq<char>)
    ensures
        ({
            let s = dotted_quad(a, b, c, d);
            let first = a.len() as int;
            let second = first + 1 + b.len();
            let third = second + 1 + c.len();
            &&& s.len() == third + 1 + d.len()
            &&& s[first] == '.' && s[second] == '.' && s[third] == '.'
            &&& s.subrange(0, first) == a
            &&& s.subrange(first + 1, second) == b
            &&& s.subrange(second + 1, third) == c
            &&& s.subrange(third + 1, s.len() as int) == d
        }),
{
}

/// An address holds three dots, digits everywhere else, and an octet in
/// each of the four spans that the dots bound. Returns where the dots are.
pub proof fn lemma_address_dots(s: Seq<char>) -> (dots: (int, int, int))
    requires
        is_ipv4(s),
    ensures
        0 <= dots.0 < dots.1 < dots.2 < s.len(),
        s[dots.0] == '.' && s[dots.1] == '.' && s[dots.2] == '.',
        forall|i: int|
            0 <= i < s.len() && i != dots.0 && i != dots.1 && i != dots.2 ==> is_digit(
                #[trigger] s[i],
            ),
        is_octet(s.subrange(0, dots.0)),
        is_octet(s.subrange(dots.0 + 1, dots.1)),
        is_octet(s.subrange(dots.1 + 1, dots.2)),
        is_octet(s.subrange(dots.2 + 1, s.len() as int)),
{
    let (a, b, c, d) = choose|a: Seq<char>, b: Seq<char>, c: Seq<char>, d: Seq<char>|
        #![trigger dotted_quad(a, b, c, d)]
        is_octet(a) && is_octet(b) && is_octet(c) && is_octet(d) && s == dotted_quad(a, b, c, d);
    lemma_quad_shape(a, b, c, d);
    let first = a.len() as int;
    let second = first + 1 + b.len();
    let third = second + 1 + c.len();
    (first, second, third)
}

/// Whether no dot stands at the positions `from..to` of `s`.
spec fn dot_free(s: Seq<char>, from: int, to: int) -> bool {
    forall|i: int| from <= i < to ==> #[trigger] s[i] != '.'
}

/// A string with fewer than three dots is no address. Here `first` is
/// where the first dot of `s` stands, `second` where the next one stands,
/// and `third` where the one after that stands; each is the length of `s`
/// where there is no such dot.
proof fn lemma_too_few_dots(s: Seq<char>, first: int, second: int, third: int)
    requires
        0 <= first <= second <= third == s.len(),
        dot_free(s, 0, first),
        first < s.len() ==> first < second && s[first] == '.' && dot_free(s, first + 1, second),
        second < s.len() ==> second < third && s[second] == '.' && dot_free(
            s,
            second + 1,
            third,
        ),
    ensures
        !is_ipv4(s),
{
    if is_ipv4(s) {
        lemma_address_dots(s);
    }
}

/// With the first three dots of `s` at `first`, `second` and `third`, `s`
/// is an address exactly when the four spans that they bound are octets.
proof fn lemma_address_by_dots(s: Seq<char>, first: int, second: int, third: int)
    requires
        0 <= first < second < third < s.len(),
        s[first] == '.' && s[second] == '.' && s[third] == '.',
        dot_free(s, 0, first),
        dot_free(s, first + 1, second),
        dot_free(s, second + 1, third),
    ensures
        is_ipv4(s) <==> is_octet(s.subrange(0, first)) && is_octet(s.subrange(first + 1, second))
            && is_octet(s.subrange(second + 1, third)) && is_octet(
            s.subrange(third + 1, s.len() as int),
        ),
{
    if is_ipv4(s) {
        lemma_address_dots(s);
    } else {
        assert(s =~= dotted_quad(
            s.subrange(0, first),
            s.subrange(first + 1, second),
            s.subrange(second + 1, third),
            s.subrange(third + 1, s.len() as int),
        ));
    }
}

/// Position of the first dot at or after `from`, or the length of `s` when
/// there is none.
fn next_dot(s: &[char], from: usize) -> (at: usize)
    requires
        from <= s.len(),
    ensures
        from <= at <= s.len(),
        dot_free(s@, from as int, at as int),
        at < s.len() ==> s@[at as int] == '.',
{
    let mut i: usize = from;
    while i < s.len() && s[i] != '.'
        invariant
            from <= i <= s.len(),
            dot_free(s@, from as int, i as int),
        decreases s.len() - i,
    {
        i = i + 1;
    }
    i
}

/// Whether the characters `from..to` of `s` are an octet.
fn octet(s: &[char], from: usize, to: usize) -> (ok: bool)
    requires
        from <= to <= s.len(),
    ensures
        ok == is_octet(s@.subrange(from as int, to as int)),
{
    let len: usize = to - from;
    if len < 1 || len > 3 {
        return false;
    }
    if len > 1 && s[from] == '0' {
        return false;
    }
    parse_number(s, from, to, 255).is_some()
}

/// Whether `ip` is an IPv4 address in dotted-quad notation.
pub fn check_ip(ip: &str) -> (ok: bool)
    ensures
        ok == is_ipv4(ip@),
{
    let chars = chars_of(ip);
    let s = chars.as_slice();
    let n: usize = s.len();
    let first: usize = next_dot(s, 0);
    let second: usize = if first < n {
        next_dot(s, first + 1)
    } else {
        n
    };
    let third: usize = if second < n {
        next_dot(s, second + 1)
    } else {
        n
    };
    if third == n {
        proof {
            lemma_too_few_dots(s@, first as int, second as int, third as int);
        }
        return false;
    }
    proof {
        lemma_address_by_dots(s@, first as int, second as int, third as int);
    }
    octet(s, 0, first) && octet(s, first + 1, second) && octet(s, second + 1, third) && octet(
        s,
        third + 1,
        n,
    )
}

/// Four fields, of which the first three hold no dot, make an address
/// exactly when each of them is an octet. So a field that is empty, too
/// long, not made of digits, above 255 or written with a zero in front
/// spoils the address, and so does a fourth field that holds a dot.
pub proof fn lemma_quad_is_address_iff_octets(
    a: Seq<char>,
    b: Seq<char>,
    c: Seq<char>,
    d: Seq<char>,
)
    requires
        !a.contains('.'),
        !b.contains('.'),
        !c.contains('.'),
    ensures
        is_ipv4(dotted_quad(a, b, c, d)) <==> is_octet(a) && is_octet(b) && is_octet(c)
            && is_octet(d),
{
    let s = dotted_quad(a, b, c, d);
    let first = a.len() as int;
    let second = first + 1 + b.len();
    let third = second + 1 + c.len();
    lemma_quad_shape(a, b, c, d);
    lemma_address_by_dots(s, first, second, third);
}

/// The shortest decimal notation of a number up to 255 is an octet.
proof fn lemma_decimal_is_octet(n: nat)
    requires
        n <= 255,
    ensures
        is_octet(decimal(n)),
{
    lemma_decimal(n);
    reveal_with_fuel(decimal, 3);
}

/// Four numbers up to 255, each in its shortest decimal notation and with
/// dots between them, make an address.
pub proof fn lemma_numbers_make_an_address(a: nat, b: nat, c: nat, d: nat)
    requires
        a <= 255,
        b <= 255,
        c <= 255,
        d <= 255,
    ensures
        is_ipv4(dotted_quad(decimal(a), decimal(b), decimal(c), decimal(d))),
{
    lemma_decimal_is_octet(a);
    lemma_decimal_is_octet(b);
    lemma_decimal_is_octet(c);
    lemma_decimal_is_octet(d);
}

/// Five fields or more are no address, whatever they hold.
pub proof fn lemma_five_fields_are_no_address(
    a: Seq<char>,
    b: Seq<char>,
    c: Seq<char>,
    d: Seq<char>,
    rest: Seq<char>,
)
    ensures
        !is_ipv4(dotted_quad(a, b, c, d) + seq!['.'] + rest),
{
    let s = dotted_quad(a, b, c, d) + seq!['.'] + rest;
    let first = a.len() as int;
    let second = first + 1 + b.len();
    let third = second + 1 + c.len();
    let fourth = third + 1 + d.len();
    assert(s[first] == '.' && s[second] == '.' && s[third] == '.' && s[fourth] == '.');
    if is_ipv4(s) {
        lemma_address_dots(s);
    }
}

/// A string that holds a character other than a digit and a dot is no
/// address.
pub proof fn lemma_foreign_character_is_no_address(s: Seq<char>, i: int)
    requires
        0 <= i < s.len(),
        !is_digit(s[i]),
        s[i] != '.',
    ensures
        !is_ipv4(s),
{
    if is_ipv4(s) {
        lemma_address_dots(s);
    }
}

// ---------------------------------------------------------------------------
// The port
// ---------------------------------------------------------------------------

/// Whether `s` is a port: a decimal number from 1 to 65535, written with
/// digits only, which a single plus sign may precede.
pub open spec fn is_port(s: Seq<char>) -> bool {
    let digits = if s.len() > 0 && s[0] == '+' {
        s.skip(1)
    } else {
        s
    };
    digits.len() > 0 && all_digits(digits) && 1 <= number(digits) <= 65535
}

/// Whether `port` is a port number from 1 to 65535.
pub fn check_port(port: &str) -> (ok: bool)
    ensures
        ok == is_port(port@),
{
    let chars = chars_of(port);
    let s = chars.as_slice();
    let from: usize = if s.len() > 0 && s[0] == '+' {
        1
    } else {
        0
    };
    assert(s@.skip(0) =~= s@);
    if from == s.len() {
        return false;
    }
    match parse_number(s, from, s.len(), 65535) {
        Some(v) => v >= 1,
        None => false,
    }
}

/// Every number from 1 to 65535, in its shortest decimal notation, is a
/// port; zero and every number above 65535 is none.
pub proof fn lemma_port_range(n: nat)
    ensures
        is_port(decimal(n)) <==> 1 <= n <= 65535,
{
    lemma_decimal(n);
}

/// A string that holds a character other than a digit is no port, unless
/// that character is a plus sign in the first place.
pub proof fn lemma_foreign_character_is_no_port(s: Seq<char>, i: int)
    requires
        0 <= i < s.len(),
        !is_digit(s[i]),
        i > 0 || s[0] != '+',
    ensures
        !is_port(s),
{
    if s[0] == '+' {
        assert(s.skip(1)[i - 1] == s[i]);
    }
}

// ---------------------------------------------------------------------------
// Validation
// ---------------------------------------------------------------------------

/// Why a configuration is refused.
#[derive(Debug, PartialEq, Eq)]
pub enum ConfigError {
    /// The address is not an IPv4 address.
    InvalidIp,
    /// The port is not a number from 1 to 65535.
    InvalidPort,
    /// Nothing exists at `path`, the place of the index file.
    IndexNotFound { path: String },
}

/// What a `ConfigError` holds.
pub enum ConfigErrorModel {
    InvalidIp,
    InvalidPort,
    IndexNotFound { path: Seq<char> },
}

impl View for ConfigError {
    type V = ConfigErrorModel;

    open spec fn view(&self) -> ConfigErrorModel {
        match self {
            ConfigError::InvalidIp => ConfigErrorModel::InvalidIp,
            ConfigError::InvalidPort => ConfigErrorModel::InvalidPort,
            ConfigError::IndexNotFound { path } => ConfigErrorModel::IndexNotFound { path: path@ },
        }
    }
}

/// The reason to show to the operator.
pub open spec fn error_message(error: ConfigErrorModel) -> Seq<char> {
    match error {
        ConfigErrorModel::InvalidIp => "Check `ip` value."@,
        ConfigErrorModel::InvalidPort => "Check `port` value."@,
        ConfigErrorModel::IndexNotFound { path } => "Check `root` and `index` values. Path "@ + path
            + " not found"@,
    }
}

impl ConfigError {
    /// The reason to show to the operator.
    pub fn message(&self) -> (text: String)
        ensures
            text@ == error_message(self@),
    {
        match self {
            ConfigError::InvalidIp => "Check `ip` value.".to_owned(),
            ConfigError::InvalidPort => "Check `port` value.".to_owned(),
            ConfigError::IndexNotFound { path } => {
                let mut text = "Check `root` and `index` values. Path ".to_owned();
                text.append(path.as_str());
                text.append(" not found");
                text
            },
        }
    }
}

/// The first of the three checks that `host` fails, in the order address,
/// port, index file; `index_exists` says whether anything exists at the
/// path of the index file.
pub open spec fn first_failure(host: HostModel, index_exists: bool) -> Option<ConfigErrorModel> {
    if !is_ipv4(host.ip) {
        Some(ConfigErrorModel::InvalidIp)
    } else if !is_port(host.port) {
        Some(ConfigErrorModel::InvalidPort)
    } else if !index_exists {
        Some(ConfigErrorModel::IndexNotFound { path: path_under(host.root, host.index) })
    } else {
        None
    }
}

/// A configuration passes exactly when its address is an address, its
/// port is a port and its index file exists. It fails on the address
/// whenever the address is bad, on the port only with a good address, and
/// on the index file only with a good address and a good port.
pub proof fn lemma_first_failure(host: HostModel, index_exists: bool)
    ensures
        first_failure(host, index_exists) is None <==> is_ipv4(host.ip) && is_port(host.port)
            && index_exists,
        first_failure(host, index_exists) == Some(ConfigErrorModel::InvalidIp) <==> !is_ipv4(
            host.ip,
        ),
        first_failure(host, index_exists) == Some(ConfigErrorModel::InvalidPort) <==> is_ipv4(
            host.ip,
        ) && !is_port(host.port),
        first_failure(host, index_exists) == Some(
            ConfigErrorModel::IndexNotFound { path: path_under(host.root, host.index) },
        ) <==> is_ipv4(host.ip) && is_port(host.port) && !index_exists,
{
}

/// Checks the address, the port and the index file, in that order, and
/// reports the first check that fails. `index_exists` is what the caller
/// found at `config.host.index_path()`; it is looked at only when the
/// address and the port are in order.
pub fn validate_config(config: &Config, index_exists: bool) -> (r: Result<(), ConfigError>)
    ensures
        r is Ok <==> first_failure(config@.host, index_exists) is None,
        r matches Err(error) ==> first_failure(config@.host, index_exists) == Some(error@),
{
    if !check_ip(config.host.ip.as_str()) {
        return Err(ConfigError::InvalidIp);
    }
    if !check_port(config.host.port.as_str()) {
        return Err(ConfigError::InvalidPort);
    }
    if !index_exists {
        return Err(ConfigError::IndexNotFound { path: config.host.index_path() });
    }
    Ok(())
}

// ---------------------------------------------------------------------------
// Overrides from the command line
// ---------------------------------------------------------------------------

/// What the command line may set in place of the configuration file.
#[derive(Debug, PartialEq, Eq)]
pub struct CliOverrides {
    pub verbose: bool,
    /// The address to listen on.
    pub ip: Option<String>,
    /// The port to listen on.
    pub port: Option<String>,
    /// The path of the file to serve as the index; its directory becomes
    /// the served directory.
    pub serve: Option<String>,
}

/// The characters of an optional string.
pub open spec fn text_of(value: Option<String>) -> Option<Seq<char>> {
    match value {
        Some(text) => Some(text@),
        None => None,
    }
}

/// The directory part of `path`: what stands before its last `/`, and
/// nothing when it has no `/`.
pub open spec fn directory_of(path: Seq<char>) -> Seq<char> {
    let slash = last_index_of(path, '/');
    if slash < 0 {
        Seq::empty()
    } else {
        path.take(slash)
    }
}

/// The file part of `path`: what stands after its last `/`, and all of it
/// when it has no `/`.
pub open spec fn file_of(path: Seq<char>) -> Seq<char> {
    path.skip(last_index_of(path, '/') + 1)
}

/// The file part of a path holds no `/`. A path with a `/` is its
/// directory part, a `/`, and its file part; a path without one is its own
/// file part.
pub proof fn lemma_path_parts(path: Seq<char>)
    ensures
        !file_of(path).contains('/'),
        path.contains('/') ==> path == directory_of(path) + seq!['/'] + file_of(path),
        !path.contains('/') ==> directory_of(path) == Seq::<char>::empty() && file_of(path)
            == path,
{
    let slash = last_index_of(path, '/');
    let file = file_of(path);
    lemma_last_index_of(path, '/');
}

/// Splitting undoes joining: the path of `file` under `directory` has
/// `directory` as its directory part and `file` as its file part, as long
/// as `file` holds no `/`.
pub proof fn lemma_parts_of_joined_path(directory: Seq<char>, file: Seq<char>)
    requires
        !file.contains('/'),
    ensures
        directory_of(path_under(directory, file)) == directory,
        file_of(path_under(directory, file)) == file,
{
    let path = path_under(directory, file);
    lemma_last_index_of_split(directory, '/', file);
    assert(path.take(directory.len() as int) =~= directory);
    assert(path.skip(directory.len() as int + 1) =~= file);
}

/// `host` with the values that the command line sets put in place of those
/// of the configuration file.
pub open spec fn overridden(
    host: HostModel,
    ip: Option<Seq<char>>,
    port: Option<Seq<char>>,
    serve: Option<Seq<char>>,
) -> HostModel {
    HostModel {
        ip: match ip {
            Some(ip) => ip,
            None => host.ip,
        },
        port: match port {
            Some(port) => port,
            None => host.port,
        },
        root: match serve {
            Some(path) => directory_of(path),
            None => host.root,
        },
        index: match serve {
            Some(path) => file_of(path),
            None => host.index,
        },
    }
}

/// Splits the path of a file into its directory and its file name.
pub fn split_path(path: &str) -> (parts: (String, String))
    ensures
        parts.0@ == directory_of(path@),
        parts.1@ == file_of(path@),
{
    let chars = chars_of(path);
    match find_last(chars.as_slice(), '/') {
        Some(slash) => {
            let directory = substring(path, 0, slash);
            let file = substring(path, slash + 1, chars.len());
            (directory, file)
        },
        None => {
            (String::new(), path.to_owned())
        },
    }
}

/// The configuration that results from the host settings of the
/// configuration file and the command line.
pub fn merge_config(host: HostConfig, cli: CliOverrides) -> (config: Config)
    ensures
        config@.verbose == cli.verbose,
        config@.host == overridden(host@, text_of(cli.ip), text_of(cli.port), text_of(cli.serve)),
{
    let mut merged = host;
    if let Some(ip) = cli.ip {
        merged.ip = ip;
    }
    if let Some(port) = cli.port {
        merged.port = port;
    }
    if let Some(path) = cli.serve {
        let (root, index) = split_path(path.as_str());
        merged.root = root;
        merged.index = index;
    }
    Config { host: merged, cli: AppConfig { verbose: cli.verbose } }
}

} // verus!
