//! Arguments of the proxy command.
use vstd::prelude::*;

use crate::error::{ErrorModel, NonoError};
use crate::text;

verus! {

/// What the user asked of the proxy command.
#[derive(Debug, PartialEq, Eq)]
pub struct ProxyArgs {
    pub profile: Option<String>,
    pub network_profile: Option<String>,
    pub allow_proxy: Vec<String>,
    pub deny_proxy: Vec<String>,
    pub proxy_credential: Vec<String>,
    pub allow_endpoint: Vec<String>,
    pub external_proxy: Option<String>,
    pub external_proxy_bypass: Vec<String>,
    /// In days.
    pub proxy_ca_validity: Option<u32>,
    pub proxy_ca_cert: Option<String>,
    pub proxy_ca_key: Option<String>,
    /// The system's keychain is to trust the authority. Only some systems have
    /// one.
    pub trust_proxy_ca: bool,
    pub allow_http2: bool,
    pub no_auth: bool,
    pub pass: Option<String>,
    pub listen: String,
    pub port: u16,
    pub max_connections: usize,
}

/// What arguments stand for.
#[verifier::ext_equal]
pub struct ArgsModel {
    pub profile: Option<Seq<char>>,
    pub network_profile: Option<Seq<char>>,
    pub allow_proxy: Seq<Seq<char>>,
    pub deny_proxy: Seq<Seq<char>>,
    pub proxy_credential: Seq<Seq<char>>,
    pub allow_endpoint: Seq<Seq<char>>,
    pub external_proxy: Option<Seq<char>>,
    pub external_proxy_bypass: Seq<Seq<char>>,
    pub proxy_ca_validity: Option<u32>,
    pub proxy_ca_cert: Option<Seq<char>>,
    pub proxy_ca_key: Option<Seq<char>>,
    pub trust_proxy_ca: bool,
    pub allow_http2: bool,
    pub no_auth: bool,
    pub pass: Option<Seq<char>>,
    pub listen: Seq<char>,
    pub port: u16,
    pub max_connections: usize,
}

impl View for ProxyArgs {
    type V = ArgsModel;

    open spec fn view(&self) -> ArgsModel {
        ArgsModel {
            profile: text::opt_text(self.profile),
            network_profile: text::opt_text(self.network_profile),
            allow_proxy: text::texts(self.allow_proxy@),
            deny_proxy: text::texts(self.deny_proxy@),
            proxy_credential: text::texts(self.proxy_credential@),
            allow_endpoint: text::texts(self.allow_endpoint@),
            external_proxy: text::opt_text(self.external_proxy),
            external_proxy_bypass: text::texts(self.external_proxy_bypass@),
            proxy_ca_validity: self.proxy_ca_validity,
            proxy_ca_cert: text::opt_text(self.proxy_ca_cert),
            proxy_ca_key: text::opt_text(self.proxy_ca_key),
            trust_proxy_ca: self.trust_proxy_ca,
            allow_http2: self.allow_http2,
            no_auth: self.no_auth,
            pass: text::opt_text(self.pass),
            listen: self.listen@,
            port: self.port,
            max_connections: self.max_connections,
        }
    }
}

/// How many connections are served at a time unless the user says otherwise.
pub const DEFAULT_MAX_CONNECTIONS: usize = 256;

// ---------------------------------------------------------------------------
// Flags
// ---------------------------------------------------------------------------

/// Flags that stand alone.
pub open spec fn is_switch(name: Seq<char>) -> bool {
    name == "--allow-http2"@ || name == "--no-auth"@ || name == "--trust-proxy-ca"@
}

/// Flags that take a value and may be repeated.
pub open spec fn is_list(name: Seq<char>) -> bool {
    ||| name == "--allow-domain"@
    ||| name == "--deny-domain"@
    ||| name == "--credential"@
    ||| name == "--allow-endpoint"@
    ||| name == "--upstream-bypass"@
}

/// Flags that take a value and may be given once.
pub open spec fn is_single(name: Seq<char>) -> bool {
    ||| name == "--profile"@
    ||| name == "--network-profile"@
    ||| name == "--upstream-proxy"@
    ||| name == "--proxy-ca-validity"@
    ||| name == "--proxy-ca-cert"@
    ||| name == "--proxy-ca-key"@
    ||| name == "--pass"@
    ||| name == "--listen"@
    ||| name == "--port"@
    ||| name == "--max-connections"@
}

fn is_switch_flag(name: &str) -> (r: bool)
    ensures
        r == is_switch(name@),
{
    text::text_eq(name, "--allow-http2") || text::text_eq(name, "--no-auth") || text::text_eq(
        name,
        "--trust-proxy-ca",
    )
}

fn is_list_flag(name: &str) -> (r: bool)
    ensures
        r == is_list(name@),
{
    text::text_eq(name, "--allow-domain") || text::text_eq(name, "--deny-domain")
        || text::text_eq(name, "--credential") || text::text_eq(name, "--allow-endpoint")
        || text::text_eq(name, "--upstream-bypass")
}

fn is_single_flag(name: &str) -> (r: bool)
    ensures
        r == is_single(name@),
{
    text::text_eq(name, "--profile") || text::text_eq(name, "--network-profile")
        || text::text_eq(name, "--upstream-proxy") || text::text_eq(name, "--proxy-ca-validity")
        || text::text_eq(name, "--proxy-ca-cert") || text::text_eq(name, "--proxy-ca-key")
        || text::text_eq(name, "--pass") || text::text_eq(name, "--listen") || text::text_eq(
        name,
        "--port",
    ) || text::text_eq(name, "--max-connections")
}

/// One use of a flag.
#[verifier::ext_equal]
pub struct UseModel {
    pub flag: Seq<char>,
    pub value: Seq<char>,
}

/// One use of a flag, as a value.
pub struct FlagUse {
    pub flag: String,
    pub value: String,
}

impl View for FlagUse {
    type V = UseModel;

    open spec fn view(&self) -> UseModel {
        UseModel { flag: self.flag@, value: self.value@ }
    }
}

/// The error for an argument list that is not understood.
pub open spec fn usage_error(before: Seq<char>, what: Seq<char>, after: Seq<char>) -> ErrorModel {
    ErrorModel::ConfigParse(before + what + after)
}

fn usage(before: &str, what: &str, after: &str) -> (r: NonoError)
    ensures
        r@ == usage_error(before@, what@, after@),
{
    NonoError::ConfigParse(text::cat3(before, what, after))
}

/// What stands before the first `=` of an argument.
pub open spec fn flag_part(argument: Seq<char>) -> Seq<char>
    decreases argument.len(),
{
    if argument.len() == 0 || argument[0] == '=' {
        Seq::empty()
    } else {
        seq![argument[0]] + flag_part(argument.skip(1))
    }
}

/// What stands behind the first `=` of an argument, if there is one.
pub open spec fn inline_value(argument: Seq<char>) -> Option<Seq<char>> {
    if flag_part(argument).len() < argument.len() {
        Some(argument.skip(flag_part(argument).len() as int + 1))
    } else {
        None
    }
}

/// The argument is meant as a flag, not as a value.
pub open spec fn looks_like_flag(argument: Seq<char>) -> bool {
    argument.len() > 1 && argument[0] == '-'
}

/// The first argument as the use of a flag, with the number of arguments that
/// it takes up.
pub open spec fn first_use(arguments: Seq<Seq<char>>) -> Result<(UseModel, int), ErrorModel> {
    let flag = flag_part(arguments[0]);
    let inline = inline_value(arguments[0]);
    if is_switch(flag) {
        if inline is Some {
            Err(usage_error("the flag '"@, flag, "' takes no value"@))
        } else {
            Ok((UseModel { flag, value: Seq::empty() }, 1))
        }
    } else if is_list(flag) || is_single(flag) {
        match inline {
            Some(value) => Ok((UseModel { flag, value }, 1)),
            None => if arguments.len() < 2 || looks_like_flag(arguments[1]) {
                Err(usage_error("a value is required for '"@, flag, "'"@))
            } else {
                Ok((UseModel { flag, value: arguments[1] }, 2))
            },
        }
    } else {
        Err(usage_error("unexpected argument '"@, arguments[0], "'"@))
    }
}

/// The uses of flags in an argument list; the first argument that is not
/// understood decides.
pub open spec fn uses(arguments: Seq<Seq<char>>) -> Result<Seq<UseModel>, ErrorModel>
    decreases arguments.len(),
{
    if arguments.len() == 0 {
        Ok(Seq::empty())
    } else {
        match first_use(arguments) {
            Err(error) => Err(error),
            Ok((first, taken)) => match uses(arguments.skip(taken)) {
                Err(error) => Err(error),
                Ok(rest) => Ok(seq![first] + rest),
            },
        }
    }
}

fn split_flag(argument: &str) -> (r: (String, Option<String>))
    ensures
        r.0@ == flag_part(argument@),
        text::opt_text(r.1) == inline_value(argument@),
{
    let mut flag = String::new();
    let mut value = String::new();
    let mut found: bool = false;
    assert(argument@.skip(0) =~= argument@);
    for c in it: argument.chars()
        invariant
            it.seq() == argument@,
            !found ==> flag@.len() == it.index() && value@.len() == 0 && flag_part(argument@)
                == flag@ + flag_part(argument@.skip(it.index() as int)),
            found ==> flag@ == flag_part(argument@) && flag@.len() < it.index() && value@
                == argument@.subrange(flag@.len() as int + 1, it.index() as int),
    {
        let ghost i = it.index() as int;
        let ghost rest = argument@.skip(i);
        assert(rest[0] == c);
        assert(rest.skip(1) =~= argument@.skip(i + 1));
        if found {
            value.push(c);
            assert(value@ =~= argument@.subrange(flag@.len() as int + 1, i + 1));
        } else if c == '=' {
            found = true;
            assert(flag@ =~= flag_part(argument@));
            assert(value@ =~= argument@.subrange(i + 1, i + 1));
        } else {
            let ghost before = flag@;
            flag.push(c);
            assert(flag@ =~= before + seq![c]);
            assert(before + (seq![c] + flag_part(rest.skip(1))) =~= flag@ + flag_part(
                rest.skip(1),
            ));
        }
    }
    if found {
        assert(value@ =~= argument@.skip(flag@.len() as int + 1));
        (flag, Some(value))
    } else {
        assert(flag_part(argument@.skip(argument@.len() as int)) =~= Seq::empty());
        assert(flag@ =~= flag_part(argument@));
        (flag, None)
    }
}

fn is_flag_like(argument: &str) -> (r: bool)
    ensures
        r == looks_like_flag(argument@),
{
    let dash = text::starts_with(argument, "-");
    let lone = text::text_eq(argument, "-");
    proof {
        reveal_strlit("-");
        if dash {
            assert(argument@.subrange(0, 1)[0] == '-');
        }
        if argument@.len() > 0 && argument@[0] == '-' {
            assert("-"@ =~= argument@.subrange(0, 1));
            if argument@.len() == 1 {
                assert(argument@ =~= "-"@);
            }
        }
    }
    dash && !lone
}

fn parse_first(arguments: &Vec<String>, at: usize) -> (r: Result<(FlagUse, usize), NonoError>)
    requires
        at < arguments@.len(),
    ensures
        match r {
            Ok((first, taken)) => first_use(text::texts(arguments@).skip(at as int)) == Ok::<
                _,
                ErrorModel,
            >((first@, taken as int)) && 1 <= taken <= 2 && at + taken <= arguments@.len(),
            Err(error) => first_use(text::texts(arguments@).skip(at as int)) == Err::<
                (UseModel, int),
                _,
            >(error@),
        },
{
    let ghost rest = text::texts(arguments@).skip(at as int);
    assert(rest[0] == arguments@[at as int]@);
    let (flag, inline) = split_flag(arguments[at].as_str());
    if is_switch_flag(flag.as_str()) {
        if inline.is_some() {
            return Err(usage("the flag '", flag.as_str(), "' takes no value"));
        }
        let none = String::new();
        assert(none@ =~= Seq::empty());
        return Ok((FlagUse { flag, value: none }, 1));
    }
    if is_list_flag(flag.as_str()) || is_single_flag(flag.as_str()) {
        if let Some(value) = inline {
            return Ok((FlagUse { flag, value }, 1));
        }
        if arguments.len() - at < 2 {
            return Err(usage("a value is required for '", flag.as_str(), "'"));
        }
        assert(rest[1] == arguments@[at + 1]@);
        if is_flag_like(arguments[at + 1].as_str()) {
            return Err(usage("a value is required for '", flag.as_str(), "'"));
        }
        return Ok((FlagUse { flag, value: arguments[at + 1].clone() }, 2));
    }
    Err(usage("unexpected argument '", arguments[at].as_str(), "'"))
}

/// The uses so far, then those still to come.
spec fn continued(done: Seq<UseModel>, rest: Result<Seq<UseModel>, ErrorModel>) -> Result<
    Seq<UseModel>,
    ErrorModel,
> {
    match rest {
        Ok(more) => Ok(done + more),
        Err(error) => Err(error),
    }
}

fn parse_uses(arguments: &Vec<String>, from: usize) -> (r: Result<Vec<FlagUse>, NonoError>)
    requires
        from <= arguments@.len(),
    ensures
        match r {
            Ok(found) => uses(text::texts(arguments@).skip(from as int)) == Ok::<_, ErrorModel>(
                text::views(found@),
            ),
            Err(error) => uses(text::texts(arguments@).skip(from as int)) == Err::<
                Seq<UseModel>,
                _,
            >(error@),
        },
{
    let ghost all = text::texts(arguments@);
    let ghost whole = uses(all.skip(from as int));
    let mut found: Vec<FlagUse> = Vec::new();
    let mut at = from;
    proof {
        assert(text::views(found@) =~= Seq::empty());
        if let Ok(more) = whole {
            assert(Seq::<UseModel>::empty() + more =~= more);
        }
    }
    while at < arguments.len()
        invariant
            at <= arguments@.len(),
            all == text::texts(arguments@),
            whole == continued(text::views(found@), uses(all.skip(at as int))),
            whole == uses(all.skip(from as int)),
        decreases arguments@.len() - at,
    {
        match parse_first(arguments, at) {
            Err(error) => {
                return Err(error);
            },
            Ok((first, taken)) => {
                let ghost before = text::views(found@);
                let ghost value = first@;
                found.push(first);
                proof {
                    assert(text::views(found@) =~= before.push(value));
                    assert(all.skip(at as int).skip(taken as int) =~= all.skip(at + taken));
                    if let Ok(more) = uses(all.skip(at + taken)) {
                        assert(before + (seq![value] + more) =~= before.push(value) + more);
                    }
                }
                at = at + taken;
            },
        }
    }
    proof {
        assert(all.skip(at as int).len() == 0);
        assert(text::views(found@) + Seq::<UseModel>::empty() =~= text::views(found@));
    }
    Ok(found)
}

/// The values that a flag was given, in order.
pub open spec fn values_of(list: Seq<UseModel>, flag: Seq<char>) -> Seq<Seq<char>>
    decreases list.len(),
{
    if list.len() == 0 {
        Seq::empty()
    } else if list.last().flag == flag {
        values_of(list.drop_last(), flag).push(list.last().value)
    } else {
        values_of(list.drop_last(), flag)
    }
}

/// The value of a flag that was given at most once.
pub open spec fn value_of(list: Seq<UseModel>, flag: Seq<char>) -> Option<Seq<char>> {
    if values_of(list, flag).len() == 0 {
        None
    } else {
        Some(values_of(list, flag)[0])
    }
}

fn collect_values(list: &Vec<FlagUse>, flag: &str) -> (r: Vec<String>)
    ensures
        text::texts(r@) == values_of(text::views(list@), flag@),
{
    let ghost all = text::views(list@);
    let mut out: Vec<String> = Vec::new();
    assert(text::texts(out@) =~= values_of(all.take(0), flag@));
    for i in 0..list.len()
        invariant
            all == text::views(list@),
            text::texts(out@) == values_of(all.take(i as int), flag@),
    {
        assert(all.take(i + 1).drop_last() =~= all.take(i as int));
        assert(all.take(i + 1).last() == list@[i as int]@);
        if text::text_eq(list[i].flag.as_str(), flag) {
            let ghost before = text::texts(out@);
            out.push(list[i].value.clone());
            assert(text::texts(out@) =~= before.push(list@[i as int].value@));
        }
    }
    assert(all.take(all.len() as int) =~= all);
    out
}

fn take_value(list: &Vec<FlagUse>, flag: &str) -> (r: Option<String>)
    ensures
        text::opt_text(r) == value_of(text::views(list@), flag@),
{
    let values = collect_values(list, flag);
    if values.len() == 0 {
        None
    } else {
        assert(text::texts(values@)[0] == values@[0]@);
        Some(values[0].clone())
    }
}

/// The flags that may be given once.
pub open spec fn once_flags() -> Seq<Seq<char>> {
    seq![
        "--profile"@,
        "--network-profile"@,
        "--upstream-proxy"@,
        "--proxy-ca-validity"@,
        "--proxy-ca-cert"@,
        "--proxy-ca-key"@,
        "--pass"@,
        "--listen"@,
        "--port"@,
        "--max-connections"@,
        "--allow-http2"@,
        "--no-auth"@,
        "--trust-proxy-ca"@,
    ]
}

/// The first of the flags that was given more than once.
pub open spec fn first_repeated(list: Seq<UseModel>, flags: Seq<Seq<char>>) -> Option<Seq<char>>
    decreases flags.len(),
{
    if flags.len() == 0 {
        None
    } else if values_of(list, flags[0]).len() > 1 {
        Some(flags[0])
    } else {
        first_repeated(list, flags.skip(1))
    }
}

fn find_repeated(list: &Vec<FlagUse>) -> (r: Option<String>)
    ensures
        text::opt_text(r) == first_repeated(text::views(list@), once_flags()),
{
    let flags: [&str; 13] = [
        "--profile",
        "--network-profile",
        "--upstream-proxy",
        "--proxy-ca-validity",
        "--proxy-ca-cert",
        "--proxy-ca-key",
        "--pass",
        "--listen",
        "--port",
        "--max-connections",
        "--allow-http2",
        "--no-auth",
        "--trust-proxy-ca",
    ];
    let ghost all = once_flags();
    assert(forall|j: int| 0 <= j < 13 ==> (#[trigger] flags@[j])@ == all[j]);
    assert(all.skip(0) =~= all);
    for i in 0..13
        invariant
            all == once_flags(),
            flags@.len() == 13,
            forall|j: int| 0 <= j < 13 ==> (#[trigger] flags@[j])@ == all[j],
            first_repeated(text::views(list@), all) == first_repeated(
                text::views(list@),
                all.skip(i as int),
            ),
    {
        let flag = flags[i];
        assert(flag@ == all[i as int]);
        assert(all.skip(i as int).skip(1) =~= all.skip(i + 1));
        let values = collect_values(list, flag);
        assert(text::texts(values@).len() == values@.len());
        if values.len() > 1 {
            return Some(flag.to_owned());
        }
    }
    None
}

// ---------------------------------------------------------------------------
// Numbers
// ---------------------------------------------------------------------------

/// The digits of a number, without the sign that it may begin with.
pub open spec fn unsigned_part(number: Seq<char>) -> Seq<char> {
    if number.len() > 0 && number[0] == '+' {
        number.skip(1)
    } else {
        number
    }
}

/// Every character is a decimal digit.
pub open spec fn all_digits(number: Seq<char>) -> bool {
    forall|i: int| 0 <= i < number.len() ==> '0' <= #[trigger] number[i] <= '9'
}

/// What decimal digits amount to.
pub open spec fn digits_value(digits: Seq<char>) -> nat
    decreases digits.len(),
{
    if digits.len() == 0 {
        0
    } else {
        digits_value(digits.drop_last()) * 10 + (digits.last() as nat - '0' as nat) as nat
    }
}

/// The number that a text spells, if it spells one up to `max`.
pub open spec fn number(spelled: Seq<char>, max: nat) -> Option<nat> {
    let digits = unsigned_part(spelled);
    if digits.len() > 0 && all_digits(digits) && digits_value(digits) <= max {
        Some(digits_value(digits))
    } else {
        None
    }
}

proof fn lemma_digits_grow(digits: Seq<char>, k: int)
    requires
        0 <= k <= digits.len(),
    ensures
        digits_value(digits.take(k)) <= digits_value(digits),
    decreases digits.len() - k,
{
    if k < digits.len() {
        lemma_digits_grow(digits, k + 1);
        assert(digits.take(k + 1).drop_last() =~= digits.take(k));
    } else {
        assert(digits.take(k) =~= digits);
    }
}

/// Reads a decimal number up to `max`.
pub fn parse_number(spelled: &str, max: u64) -> (r: Option<u64>)
    ensures
        match r {
            Some(n) => number(spelled@, max as nat) == Some(n as nat),
            None => number(spelled@, max as nat) is None,
        },
{
    let ghost digits = unsigned_part(spelled@);
    let mut signed: bool = false;
    let mut first: bool = true;
    let mut any: bool = false;
    let mut n: u64 = 0;
    for c in it: spelled.chars()
        invariant
            it.seq() == spelled@,
            digits == unsigned_part(spelled@),
            first == (it.index() == 0),
            signed == (it.index() > 0 && spelled@[0] == '+'),
            any == (it.index() > (if signed { 1int } else { 0int })),
            n <= max,
            it.index() > 0 ==> digits.len() == spelled@.len() - (if signed { 1int } else { 0int }),
            it.index() > 0 ==> n == digits_value(
                digits.take(it.index() - (if signed { 1int } else { 0int })),
            ),
            it.index() == 0 ==> n == 0,
            it.index() > 0 ==> forall|i: int|
                0 <= i < it.index() - (if signed { 1int } else { 0int }) ==> '0'
                    <= #[trigger] digits[i] <= '9',
    {
        let ghost i = it.index() as int;
        if first && c == '+' {
            signed = true;
            first = false;
            assert(digits =~= spelled@.skip(1));
            assert(digits.take(0) =~= Seq::empty());
        } else {
            let ghost k = i - (if signed { 1int } else { 0int });
            assert(digits[k] == c);
            if !('0' <= c && c <= '9') {
                assert(!('0' <= digits[k] <= '9'));
                return None;
            }
            let d: u64 = ((c as u8) - ('0' as u8)) as u64;
            proof {
                assert(digits.take(k + 1).drop_last() =~= digits.take(k));
                assert(digits.take(k + 1).last() == c);
                lemma_digits_grow(digits, k + 1);
                assert(digits.take(0) =~= Seq::empty());
            }
            if n > max / 10 || d > max - n * 10 {
                proof {
                    assert(digits_value(digits.take(k + 1)) == n * 10 + d);
                    assert(n * 10 + d > max);
                }
                return None;
            }
            n = n * 10 + d;
            any = true;
            first = false;
        }
    }
    if any {
        assert(digits.take(digits.len() as int) =~= digits);
        Some(n)
    } else {
        None
    }
}

proof fn lemma_decimal_reads_back(n: nat)
    ensures
        text::decimal(n).len() > 0,
        all_digits(text::decimal(n)),
        digits_value(text::decimal(n)) == n,
    decreases n,
{
    let spelled = text::decimal(n);
    let rest = spelled.drop_last();
    assert(spelled.last() as nat - '0' as nat == n % 10);
    if n < 10 {
        assert(rest =~= Seq::empty());
        assert(digits_value(rest) == 0);
    } else {
        lemma_decimal_reads_back(n / 10);
        assert(rest =~= text::decimal(n / 10));
    }
    assert forall|i: int| 0 <= i < spelled.len() implies '0' <= #[trigger] spelled[i] <= '9' by {
        if i < rest.len() {
            assert(spelled[i] == text::decimal(n / 10)[i]);
        }
    }
}

/// A number that is written in decimal is read back, up to the greatest that is
/// allowed.
pub proof fn law_numbers_read_back(n: nat, max: nat)
    ensures
        number(text::decimal(n), max) == (if n <= max {
            Some(n)
        } else {
            None
        }),
{
    lemma_decimal_reads_back(n);
    assert('0' <= text::decimal(n)[0] <= '9');
}

// ---------------------------------------------------------------------------
// The whole
// ---------------------------------------------------------------------------

/// The value of a flag that takes a number up to `max`.
pub open spec fn number_of(list: Seq<UseModel>, flag: Seq<char>, max: nat) -> Result<
    Option<nat>,
    ErrorModel,
> {
    match value_of(list, flag) {
        None => Ok(None),
        Some(spelled) => match number(spelled, max) {
            Some(n) => Ok(Some(n)),
            None => Err(usage_error("invalid value for '"@, flag, "'"@)),
        },
    }
}

fn take_number(list: &Vec<FlagUse>, flag: &str, max: u64) -> (r: Result<Option<u64>, NonoError>)
    ensures
        match r {
            Ok(Some(n)) => n <= max && number_of(text::views(list@), flag@, max as nat) == Ok::<
                _,
                ErrorModel,
            >(Some(n as nat)),
            Ok(None) => number_of(text::views(list@), flag@, max as nat) == Ok::<_, ErrorModel>(
                None::<nat>,
            ),
            Err(error) => number_of(text::views(list@), flag@, max as nat) == Err::<
                Option<nat>,
                _,
            >(error@),
        },
{
    match take_value(list, flag) {
        None => Ok(None),
        Some(spelled) => match parse_number(spelled.as_str(), max) {
            Some(n) => Ok(Some(n)),
            None => Err(usage("invalid value for '", flag, "'")),
        },
    }
}

/// What is wrong with flags that do not go together: a certificate and its key
/// need each other, a supplied certificate has its own validity, and a password
/// contradicts an open proxy. A keychain that the system does not have is no
/// flag at all.
pub open spec fn contradiction(list: Seq<UseModel>, keychain: bool) -> Option<ErrorModel> {
    let cert = value_of(list, "--proxy-ca-cert"@) is Some;
    let key = value_of(list, "--proxy-ca-key"@) is Some;
    if !keychain && value_of(list, "--trust-proxy-ca"@) is Some {
        Some(usage_error("unexpected argument '"@, "--trust-proxy-ca"@, "'"@))
    } else if cert && !key {
        Some(usage_error("'--proxy-ca-cert' requires '"@, "--proxy-ca-key"@, "'"@))
    } else if key && !cert {
        Some(usage_error("'--proxy-ca-key' requires '"@, "--proxy-ca-cert"@, "'"@))
    } else if cert && value_of(list, "--proxy-ca-validity"@) is Some {
        Some(
            usage_error("'--proxy-ca-cert' cannot be used with '"@, "--proxy-ca-validity"@, "'"@),
        )
    } else if value_of(list, "--no-auth"@) is Some && value_of(list, "--pass"@) is Some {
        Some(usage_error("'--no-auth' cannot be used with '"@, "--pass"@, "'"@))
    } else {
        None
    }
}

fn find_contradiction(list: &Vec<FlagUse>, keychain: bool) -> (r: Option<NonoError>)
    ensures
        match r {
            Some(error) => contradiction(text::views(list@), keychain) == Some(error@),
            None => contradiction(text::views(list@), keychain) is None,
        },
{
    if !keychain && take_value(list, "--trust-proxy-ca").is_some() {
        return Some(usage("unexpected argument '", "--trust-proxy-ca", "'"));
    }
    let cert = take_value(list, "--proxy-ca-cert").is_some();
    let key = take_value(list, "--proxy-ca-key").is_some();
    if cert && !key {
        return Some(usage("'--proxy-ca-cert' requires '", "--proxy-ca-key", "'"));
    }
    if key && !cert {
        return Some(usage("'--proxy-ca-key' requires '", "--proxy-ca-cert", "'"));
    }
    if cert && take_value(list, "--proxy-ca-validity").is_some() {
        return Some(
            usage("'--proxy-ca-cert' cannot be used with '", "--proxy-ca-validity", "'"),
        );
    }
    if take_value(list, "--no-auth").is_some() && take_value(list, "--pass").is_some() {
        return Some(usage("'--no-auth' cannot be used with '", "--pass", "'"));
    }
    None
}

/// The arguments that flags without contradiction stand for.
pub open spec fn args_of(
    list: Seq<UseModel>,
    validity: Option<nat>,
    port: Option<nat>,
    connections: Option<nat>,
) -> ArgsModel {
    ArgsModel {
        profile: value_of(list, "--profile"@),
        network_profile: value_of(list, "--network-profile"@),
        allow_proxy: values_of(list, "--allow-domain"@),
        deny_proxy: values_of(list, "--deny-domain"@),
        proxy_credential: values_of(list, "--credential"@),
        allow_endpoint: values_of(list, "--allow-endpoint"@),
        external_proxy: value_of(list, "--upstream-proxy"@),
        external_proxy_bypass: values_of(list, "--upstream-bypass"@),
        proxy_ca_validity: match validity {
            Some(n) => Some(n as u32),
            None => None,
        },
        proxy_ca_cert: value_of(list, "--proxy-ca-cert"@),
        proxy_ca_key: value_of(list, "--proxy-ca-key"@),
        trust_proxy_ca: value_of(list, "--trust-proxy-ca"@) is Some,
        allow_http2: value_of(list, "--allow-http2"@) is Some,
        no_auth: value_of(list, "--no-auth"@) is Some,
        pass: value_of(list, "--pass"@),
        listen: match value_of(list, "--listen"@) {
            Some(address) => address,
            None => "127.0.0.1"@,
        },
        port: match port {
            Some(n) => n as u16,
            None => 0,
        },
        max_connections: match connections {
            Some(n) => n as usize,
            None => DEFAULT_MAX_CONNECTIONS,
        },
    }
}

/// The arguments that uses of flags stand for.
pub open spec fn args_of_uses(list: Seq<UseModel>, keychain: bool) -> Result<
    ArgsModel,
    ErrorModel,
> {
    match first_repeated(list, once_flags()) {
        Some(flag) => Err(usage_error("the argument '"@, flag, "' was given more than once"@)),
        None => match contradiction(list, keychain) {
            Some(error) => Err(error),
            None => match number_of(list, "--proxy-ca-validity"@, u32::MAX as nat) {
                Err(error) => Err(error),
                Ok(validity) => match number_of(list, "--port"@, u16::MAX as nat) {
                    Err(error) => Err(error),
                    Ok(port) => match number_of(list, "--max-connections"@, usize::MAX as nat) {
                        Err(error) => Err(error),
                        Ok(connections) => Ok(args_of(list, validity, port, connections)),
                    },
                },
            },
        },
    }
}

/// The arguments of a command line, whose first member names the program, on a
/// system with or without a keychain.
pub open spec fn parsed_args(line: Seq<Seq<char>>, keychain: bool) -> Result<
    ArgsModel,
    ErrorModel,
> {
    let arguments = if line.len() == 0 {
        line
    } else {
        line.skip(1)
    };
    match uses(arguments) {
        Err(error) => Err(error),
        Ok(list) => args_of_uses(list, keychain),
    }
}

fn build_args(list: &Vec<FlagUse>, keychain: bool) -> (r: Result<ProxyArgs, NonoError>)
    ensures
        crate::error::outcome(r) == args_of_uses(text::views(list@), keychain),
{
    if let Some(flag) = find_repeated(list) {
        return Err(usage("the argument '", flag.as_str(), "' was given more than once"));
    }
    if let Some(error) = find_contradiction(list, keychain) {
        return Err(error);
    }
    let validity = match take_number(list, "--proxy-ca-validity", u32::MAX as u64) {
        Ok(validity) => validity,
        Err(error) => {
            return Err(error);
        },
    };
    let port = match take_number(list, "--port", u16::MAX as u64) {
        Ok(port) => port,
        Err(error) => {
            return Err(error);
        },
    };
    let connections = match take_number(list, "--max-connections", usize::MAX as u64) {
        Ok(connections) => connections,
        Err(error) => {
            return Err(error);
        },
    };
    let r = ProxyArgs {
        profile: take_value(list, "--profile"),
        network_profile: take_value(list, "--network-profile"),
        allow_proxy: collect_values(list, "--allow-domain"),
        deny_proxy: collect_values(list, "--deny-domain"),
        proxy_credential: collect_values(list, "--credential"),
        allow_endpoint: collect_values(list, "--allow-endpoint"),
        external_proxy: take_value(list, "--upstream-proxy"),
        external_proxy_bypass: collect_values(list, "--upstream-bypass"),
        proxy_ca_validity: match validity {
            Some(days) => Some(days as u32),
            None => None,
        },
        proxy_ca_cert: take_value(list, "--proxy-ca-cert"),
        proxy_ca_key: take_value(list, "--proxy-ca-key"),
        trust_proxy_ca: take_value(list, "--trust-proxy-ca").is_some(),
        allow_http2: take_value(list, "--allow-http2").is_some(),
        no_auth: take_value(list, "--no-auth").is_some(),
        pass: take_value(list, "--pass"),
        listen: match take_value(list, "--listen") {
            Some(address) => address,
            None => "127.0.0.1".to_owned(),
        },
        port: match port {
            Some(port) => port as u16,
            None => 0,
        },
        max_connections: match connections {
            Some(connections) => connections as usize,
            None => DEFAULT_MAX_CONNECTIONS,
        },
    };
    Ok(r)
}

impl ProxyArgs {
    /// Reads the arguments of a command line, whose first member names the
    /// program, on a system without a keychain.
    pub fn try_parse_from(line: &Vec<String>) -> (r: Result<ProxyArgs, NonoError>)
        ensures
            crate::error::outcome(r) == parsed_args(text::texts(line@), false),
    {
        ProxyArgs::try_parse_on(line, false)
    }

    /// Reads the arguments of a command line, whose first member names the
    /// program. `keychain` says that the system has a keychain that can trust
    /// an authority.
    pub fn try_parse_on(line: &Vec<String>, keychain: bool) -> (r: Result<ProxyArgs, NonoError>)
        ensures
            crate::error::outcome(r) == parsed_args(text::texts(line@), keychain),
    {
        let from: usize = if line.len() == 0 { 0 } else { 1 };
        proof {
            if line@.len() == 0 {
                assert(text::texts(line@).skip(0) =~= text::texts(line@));
            }
        }
        match parse_uses(line, from) {
            Err(error) => Err(error),
            Ok(list) => build_args(&list, keychain),
        }
    }
}

} // verus!
