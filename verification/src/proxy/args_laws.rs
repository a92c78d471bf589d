//! What an argument list says, and what is made of it.
use vstd::prelude::*;

use crate::error::ErrorModel;
use crate::positions;
use crate::proxy::args;
use crate::proxy::args::{ArgsModel, UseModel};
use crate::text;
use crate::text_laws;

verus! {

// ---------------------------------------------------------------------------
// Flags
// ---------------------------------------------------------------------------

/// The flags that take no value.
pub open spec fn stands_alone(flag: Seq<char>) -> bool {
    flag == "--allow-http2"@ || flag == "--no-auth"@ || flag == "--trust-proxy-ca"@
}

/// The flags that take a value and may be given many times.
pub open spec fn repeatable(flag: Seq<char>) -> bool {
    flag == "--allow-domain"@ || flag == "--deny-domain"@ || flag == "--credential"@ || flag
        == "--allow-endpoint"@ || flag == "--upstream-bypass"@
}

/// The flags that take a value.
pub open spec fn takes_value(flag: Seq<char>) -> bool {
    repeatable(flag) || flag == "--profile"@ || flag == "--network-profile"@ || flag
        == "--upstream-proxy"@ || flag == "--proxy-ca-validity"@ || flag == "--proxy-ca-cert"@
        || flag == "--proxy-ca-key"@ || flag == "--pass"@ || flag == "--listen"@ || flag
        == "--port"@ || flag == "--max-connections"@
}

/// A value behind its flag would be taken for another flag.
pub open spec fn dashed(value: Seq<char>) -> bool {
    value.len() >= 2 && value[0] == '-'
}

/// The use can be written down, with the value apart or behind an equals sign.
pub open spec fn spellable(u: UseModel, apart: bool) -> bool {
    &&& !u.flag.contains('=')
    &&& if stands_alone(u.flag) {
        u.value.len() == 0
    } else {
        takes_value(u.flag) && (apart ==> !dashed(u.value))
    }
}

/// The arguments that write a use down.
pub open spec fn spelling(u: UseModel, apart: bool) -> Seq<Seq<char>> {
    if stands_alone(u.flag) {
        seq![u.flag]
    } else if apart {
        seq![u.flag, u.value]
    } else {
        seq![u.flag + seq!['='] + u.value]
    }
}

/// The arguments that write a list of uses down.
pub open spec fn spelling_of(list: Seq<UseModel>, apart: Seq<bool>) -> Seq<Seq<char>>
    decreases list.len(),
{
    if list.len() == 0 {
        Seq::empty()
    } else {
        spelling(list[0], apart[0]) + spelling_of(list.skip(1), apart.skip(1))
    }
}

proof fn lemma_flag_part(flag: Seq<char>, value: Seq<char>)
    requires
        !flag.contains('='),
    ensures
        args::flag_part(flag) == flag,
        args::flag_part(flag + seq!['='] + value) == flag,
    decreases flag.len(),
{
    let whole = flag + seq!['='] + value;
    if flag.len() == 0 {
        assert(whole[0] == '=');
        assert(flag =~= Seq::empty());
    } else {
        let rest = flag.skip(1);
        assert(flag.contains(flag[0]));
        assert(!rest.contains('=')) by {
            if rest.contains('=') {
                let i = rest.index_of('=');
                assert(flag[i + 1] == '=');
            }
        }
        lemma_flag_part(rest, value);
        assert(whole.skip(1) =~= rest + seq!['='] + value);
        assert(seq![flag[0]] + rest =~= flag);
        assert(whole[0] == flag[0]);
    }
}

proof fn lemma_first_use(u: UseModel, apart: bool, rest: Seq<Seq<char>>)
    requires
        spellable(u, apart),
    ensures
        ({
            let arguments = spelling(u, apart) + rest;
            &&& arguments.len() > 0
            &&& args::first_use(arguments) == Ok::<_, ErrorModel>((u, spelling(u, apart).len() as int))
            &&& arguments.skip(spelling(u, apart).len() as int) == rest
        }),
{
    let arguments = spelling(u, apart) + rest;
    lemma_flag_part(u.flag, u.value);
    assert(arguments.skip(spelling(u, apart).len() as int) =~= rest);
    if stands_alone(u.flag) {
        assert(u.value =~= Seq::empty());
    } else if apart {
        assert(arguments[0] == u.flag && arguments[1] == u.value);
    } else {
        let whole = u.flag + seq!['='] + u.value;
        assert(arguments[0] == whole);
        assert(whole.skip(u.flag.len() as int + 1) =~= u.value);
    }
}

/// The argument begins with the flag: it is the flag, or the flag and a value
/// behind an equals sign.
pub open spec fn begins_with_flag(argument: Seq<char>, flag: Seq<char>, inline: bool) -> bool {
    &&& !flag.contains('=')
    &&& if inline {
        exists|value: Seq<char>| argument == #[trigger] (flag + seq!['='] + value)
    } else {
        argument == flag
    }
}

/// What is wrong with the first of some arguments.
pub open spec fn misused(
    arguments: Seq<Seq<char>>,
    flag: Seq<char>,
    inline: bool,
    error: ErrorModel,
) -> bool {
    &&& arguments.len() > 0
    &&& begins_with_flag(arguments[0], flag, inline)
    &&& if stands_alone(flag) {
        inline && error == ErrorModel::ConfigParse("the flag '"@ + flag + "' takes no value"@)
    } else if takes_value(flag) {
        !inline && (arguments.len() < 2 || dashed(arguments[1])) && error
            == ErrorModel::ConfigParse("a value is required for '"@ + flag + "'"@)
    } else {
        error == ErrorModel::ConfigParse("unexpected argument '"@ + arguments[0] + "'"@)
    }
}

/// Flags that are written down are read back in their order, and the first
/// argument that cannot be read decides.
pub proof fn law_arguments_are_read(
    list: Seq<UseModel>,
    apart: Seq<bool>,
    rest: Seq<Seq<char>>,
    flag: Seq<char>,
    inline: bool,
    error: ErrorModel,
)
    requires
        apart.len() == list.len(),
        forall|i: int| 0 <= i < list.len() ==> #[trigger] spellable(list[i], apart[i]),
    ensures
        args::uses(spelling_of(list, apart)) == Ok::<_, ErrorModel>(list),
        misused(rest, flag, inline, error) ==> args::uses(spelling_of(list, apart) + rest) == Err::<
            Seq<UseModel>,
            _,
        >(error),
    decreases list.len(),
{
    if list.len() == 0 {
        assert(list =~= Seq::empty());
        assert(spelling_of(list, apart) + rest =~= rest);
        if misused(rest, flag, inline, error) {
            if inline {
                let value = choose|value: Seq<char>|
                    rest[0] == #[trigger] (flag + seq!['='] + value);
                lemma_flag_part(flag, value);
                assert(rest[0].len() > flag.len());
            } else {
                lemma_flag_part(flag, Seq::empty());
            }
            assert(args::first_use(rest) == Err::<(UseModel, int), _>(error));
        }
    } else {
        let later = list.skip(1);
        let ways = apart.skip(1);
        assert forall|i: int| 0 <= i < later.len() implies #[trigger] spellable(
            later[i],
            ways[i],
        ) by {
            assert(spellable(list[i + 1], apart[i + 1]));
        }
        law_arguments_are_read(later, ways, rest, flag, inline, error);
        assert(spellable(list[0], apart[0]));
        let more = spelling_of(later, ways);
        lemma_first_use(list[0], apart[0], more);
        lemma_first_use(list[0], apart[0], more + rest);
        assert(spelling_of(list, apart) + rest =~= spelling(list[0], apart[0]) + (more + rest));
        assert(seq![list[0]] + later =~= list);
    }
}

// ---------------------------------------------------------------------------
// Values
// ---------------------------------------------------------------------------

/// The flag was given.
pub open spec fn given(list: Seq<UseModel>, flag: Seq<char>) -> bool {
    exists|i: int| 0 <= i < list.len() && (#[trigger] list[i]).flag == flag
}

/// The flag was given twice.
pub open spec fn repeated(list: Seq<UseModel>, flag: Seq<char>) -> bool {
    exists|i: int, j: int|
        0 <= i < j < list.len() && (#[trigger] list[i]).flag == flag && (#[trigger] list[j]).flag
            == flag
}

/// The value is that of the flag; there is none where the flag was not given.
pub open spec fn value_is(
    list: Seq<UseModel>,
    flag: Seq<char>,
    value: Option<Seq<char>>,
) -> bool {
    &&& value is Some <==> given(list, flag)
    &&& forall|i: int|
        0 <= i < list.len() && (#[trigger] list[i]).flag == flag ==> value == Some(list[i].value)
}

/// The use at a position is one of the flag.
pub open spec fn flag_at(list: Seq<UseModel>, flag: Seq<char>) -> spec_fn(int) -> bool {
    |p: int| list[p].flag == flag
}

/// The values are those that the flag was given, in their order.
pub open spec fn values_are(
    list: Seq<UseModel>,
    flag: Seq<char>,
    values: Seq<Seq<char>>,
) -> bool {
    exists|at: Seq<int>|
        {
            &&& #[trigger] positions::lists_positions(at, list.len() as int, flag_at(list, flag))
            &&& values.len() == at.len()
            &&& forall|i: int| 0 <= i < at.len() ==> #[trigger] values[i] == list[at[i]].value
        }
}

proof fn lemma_values(list: Seq<UseModel>, flag: Seq<char>) -> (at: Seq<int>)
    ensures
        positions::lists_positions(at, list.len() as int, flag_at(list, flag)),
        args::values_of(list, flag).len() == at.len(),
        forall|i: int|
            0 <= i < at.len() ==> #[trigger] args::values_of(list, flag)[i] == list[at[i]].value,
    decreases list.len(),
{
    if list.len() == 0 {
        positions::lemma_no_position(flag_at(list, flag));
        Seq::empty()
    } else {
        let n = list.len() - 1;
        let front = list.drop_last();
        let before = lemma_values(front, flag);
        assert forall|p: int| 0 <= p < n implies flag_at(front, flag)(p) == #[trigger] flag_at(
            list,
            flag,
        )(p) by {
            assert(front[p] == list[p]);
        }
        let at = positions::lemma_one_more(before, n, flag_at(front, flag), flag_at(list, flag));
        let values = args::values_of(list, flag);
        assert forall|i: int| 0 <= i < at.len() implies #[trigger] values[i] == list[at[i]].value by {
            if i < before.len() {
                assert(at[i] == before[i]);
                assert(front[before[i]] == list[at[i]]);
                assert(values[i] == args::values_of(front, flag)[i]);
            }
        }
        at
    }
}

proof fn lemma_value(list: Seq<UseModel>, flag: Seq<char>)
    ensures
        values_are(list, flag, args::values_of(list, flag)),
        args::values_of(list, flag).len() > 1 <==> repeated(list, flag),
        args::value_of(list, flag) is Some <==> given(list, flag),
        !repeated(list, flag) ==> value_is(list, flag, args::value_of(list, flag)),
{
    let at = lemma_values(list, flag);
    let values = args::values_of(list, flag);
    let wanted = flag_at(list, flag);
    if at.len() > 1 {
        assert(wanted(at[0]) && wanted(at[1]));
        assert(at[0] < at[1]);
        assert(list[at[0]].flag == flag && list[at[1]].flag == flag);
    }
    if repeated(list, flag) {
        let (i, j) = choose|i: int, j: int|
            0 <= i < j < list.len() && (#[trigger] list[i]).flag == flag && (
            #[trigger] list[j]).flag == flag;
        assert(wanted(i) && wanted(j));
        let a = at.index_of(i);
        let b = at.index_of(j);
        assert(a != b);
    }
    if at.len() > 0 {
        assert(wanted(at[0]));
        assert(list[at[0]].flag == flag);
    }
    assert forall|i: int| 0 <= i < list.len() && (#[trigger] list[i]).flag == flag implies at.len()
        > 0 && (at.len() == 1 ==> values[0] == list[i].value) by {
        assert(wanted(i));
        let a = at.index_of(i);
        assert(at[a] == i);
        assert(values[a] == list[at[a]].value);
    }
}

// ---------------------------------------------------------------------------
// Numbers
// ---------------------------------------------------------------------------

/// The text is a row of decimal digits for the number, perhaps behind a plus.
pub open spec fn spells_number(spelled: Seq<char>, n: int) -> bool {
    exists|digits: Seq<char>|
        {
            &&& spelled == digits || spelled == seq!['+'] + digits
            &&& digits.len() > 0
            &&& forall|i: int| 0 <= i < digits.len() ==> '0' <= #[trigger] digits[i] <= '9'
            &&& #[trigger] text_laws::number_of(digits) == n
        }
}

proof fn lemma_digits_value(digits: Seq<char>)
    requires
        args::all_digits(digits),
    ensures
        args::digits_value(digits) == text_laws::number_of(digits),
    decreases digits.len(),
{
    if digits.len() > 0 {
        let front = digits.drop_last();
        assert forall|i: int| 0 <= i < front.len() implies '0' <= #[trigger] front[i] <= '9' by {
            assert(front[i] == digits[i]);
        }
        lemma_digits_value(front);
        assert('0' <= digits[digits.len() - 1] <= '9');
    }
}

/// A text is read as a number exactly if it spells one, and that is not too
/// great.
pub proof fn law_number_is_read(spelled: Seq<char>, max: nat, n: nat)
    ensures
        args::number(spelled, max) == Some(n) <==> spells_number(spelled, n as int) && n <= max,
        args::number(spelled, max) is None <==> !exists|m: nat|
            #[trigger] spells_number(spelled, m as int) && m <= max,
{
    lemma_number(spelled, max, n);
    if let Some(m) = args::number(spelled, max) {
        lemma_number(spelled, max, m);
    } else {
        assert forall|m: nat| #[trigger] spells_number(spelled, m as int) implies m > max by {
            lemma_number(spelled, max, m);
        }
    }
}

proof fn lemma_number(spelled: Seq<char>, max: nat, n: nat)
    ensures
        args::number(spelled, max) == Some(n) <==> spells_number(spelled, n as int) && n <= max,
{
    let own = args::unsigned_part(spelled);
    if args::number(spelled, max) == Some(n) {
        lemma_digits_value(own);
        if spelled.len() > 0 && spelled[0] == '+' {
            assert(spelled =~= seq!['+'] + own);
        }
        assert(text_laws::number_of(own) == n);
    }
    if spells_number(spelled, n as int) && n <= max {
        let digits = choose|digits: Seq<char>|
            {
                &&& spelled == digits || spelled == seq!['+'] + digits
                &&& digits.len() > 0
                &&& forall|i: int| 0 <= i < digits.len() ==> '0' <= #[trigger] digits[i] <= '9'
                &&& #[trigger] text_laws::number_of(digits) == n
            };
        assert('0' <= digits[0] <= '9');
        if spelled == seq!['+'] + digits {
            assert(spelled[0] == '+');
            assert(spelled.skip(1) =~= digits);
        } else {
            assert(spelled[0] != '+');
        }
        assert(own == digits);
        lemma_digits_value(digits);
    }
}

// ---------------------------------------------------------------------------
// Arguments
// ---------------------------------------------------------------------------

/// The flags that may be given once.
pub open spec fn once(flag: Seq<char>) -> bool {
    stands_alone(flag) || takes_value(flag) && !repeatable(flag)
}

/// The value of the flag, if it was given, spells a number up to `max`.
pub open spec fn number_fits(list: Seq<UseModel>, flag: Seq<char>, max: nat) -> bool {
    forall|i: int|
        0 <= i < list.len() && (#[trigger] list[i]).flag == flag ==> exists|n: nat|
            #[trigger] spells_number(list[i].value, n as int) && n <= max
}

/// What is wrong with the flags of an argument list.
pub open spec fn refused(list: Seq<UseModel>, keychain: bool, error: ErrorModel) -> bool {
    ||| exists|flag: Seq<char>|
        once(flag) && #[trigger] repeated(list, flag) && error == ErrorModel::ConfigParse(
            "the argument '"@ + flag + "' was given more than once"@,
        )
    ||| !keychain && given(list, "--trust-proxy-ca"@) && error == ErrorModel::ConfigParse(
        "unexpected argument '"@ + "--trust-proxy-ca"@ + "'"@,
    )
    ||| given(list, "--proxy-ca-cert"@) && !given(list, "--proxy-ca-key"@) && error
        == ErrorModel::ConfigParse("'--proxy-ca-cert' requires '"@ + "--proxy-ca-key"@ + "'"@)
    ||| given(list, "--proxy-ca-key"@) && !given(list, "--proxy-ca-cert"@) && error
        == ErrorModel::ConfigParse("'--proxy-ca-key' requires '"@ + "--proxy-ca-cert"@ + "'"@)
    ||| given(list, "--proxy-ca-cert"@) && given(list, "--proxy-ca-validity"@) && error
        == ErrorModel::ConfigParse(
        "'--proxy-ca-cert' cannot be used with '"@ + "--proxy-ca-validity"@ + "'"@,
    )
    ||| given(list, "--no-auth"@) && given(list, "--pass"@) && error == ErrorModel::ConfigParse(
        "'--no-auth' cannot be used with '"@ + "--pass"@ + "'"@,
    )
    ||| !number_fits(list, "--proxy-ca-validity"@, 4294967295) && error
        == ErrorModel::ConfigParse("invalid value for '"@ + "--proxy-ca-validity"@ + "'"@)
    ||| !number_fits(list, "--port"@, 65535) && error == ErrorModel::ConfigParse(
        "invalid value for '"@ + "--port"@ + "'"@,
    )
    ||| !number_fits(list, "--max-connections"@, usize::MAX as nat) && error
        == ErrorModel::ConfigParse("invalid value for '"@ + "--max-connections"@ + "'"@)
}

/// The number is what the flag's value spells; without the flag it is the given
/// default.
pub open spec fn number_is(list: Seq<UseModel>, flag: Seq<char>, n: int, default: int) -> bool {
    &&& !given(list, flag) ==> n == default
    &&& forall|i: int|
        0 <= i < list.len() && (#[trigger] list[i]).flag == flag ==> spells_number(
            list[i].value,
            n,
        )
}

/// Every argument has the value of its flag, or its default.
pub open spec fn args_fit(list: Seq<UseModel>, args: ArgsModel) -> bool {
    &&& value_is(list, "--profile"@, args.profile)
    &&& value_is(list, "--network-profile"@, args.network_profile)
    &&& values_are(list, "--allow-domain"@, args.allow_proxy)
    &&& values_are(list, "--deny-domain"@, args.deny_proxy)
    &&& values_are(list, "--credential"@, args.proxy_credential)
    &&& values_are(list, "--allow-endpoint"@, args.allow_endpoint)
    &&& value_is(list, "--upstream-proxy"@, args.external_proxy)
    &&& values_are(list, "--upstream-bypass"@, args.external_proxy_bypass)
    &&& args.proxy_ca_validity is Some <==> given(list, "--proxy-ca-validity"@)
    &&& args.proxy_ca_validity is Some ==> number_is(
        list,
        "--proxy-ca-validity"@,
        args.proxy_ca_validity->0 as int,
        0,
    )
    &&& value_is(list, "--proxy-ca-cert"@, args.proxy_ca_cert)
    &&& value_is(list, "--proxy-ca-key"@, args.proxy_ca_key)
    &&& args.trust_proxy_ca <==> given(list, "--trust-proxy-ca"@)
    &&& args.allow_http2 <==> given(list, "--allow-http2"@)
    &&& args.no_auth <==> given(list, "--no-auth"@)
    &&& value_is(list, "--pass"@, args.pass)
    &&& given(list, "--listen"@) ==> value_is(list, "--listen"@, Some(args.listen))
    &&& !given(list, "--listen"@) ==> args.listen == "127.0.0.1"@
    &&& number_is(list, "--port"@, args.port as int, 0)
    &&& number_is(list, "--max-connections"@, args.max_connections as int, 256)
}

proof fn lemma_first_repeated(list: Seq<UseModel>, flags: Seq<Seq<char>>)
    ensures
        match args::first_repeated(list, flags) {
            Some(flag) => flags.contains(flag) && repeated(list, flag),
            None => forall|i: int| 0 <= i < flags.len() ==> !repeated(list, #[trigger] flags[i]),
        },
    decreases flags.len(),
{
    if flags.len() > 0 {
        let rest = flags.skip(1);
        lemma_first_repeated(list, rest);
        lemma_value(list, flags[0]);
        match args::first_repeated(list, flags) {
            Some(flag) => {
                if rest.contains(flag) {
                    assert(flags[rest.index_of(flag) + 1] == flag);
                } else {
                    assert(flags[0] == flag);
                }
            },
            None => {
                assert forall|i: int| 0 <= i < flags.len() implies !repeated(
                    list,
                    #[trigger] flags[i],
                ) by {
                    if i > 0 {
                        assert(rest[i - 1] == flags[i]);
                    }
                }
            },
        }
    }
}

proof fn lemma_once(flag: Seq<char>)
    ensures
        args::once_flags().contains(flag) ==> once(flag),
        once(flag) ==> args::once_flags().contains(flag),
{
    let flags = args::once_flags();
    if once(flag) {
        assert(flags[0] == "--profile"@);
        assert(flags[1] == "--network-profile"@);
        assert(flags[2] == "--upstream-proxy"@);
        assert(flags[3] == "--proxy-ca-validity"@);
        assert(flags[4] == "--proxy-ca-cert"@);
        assert(flags[5] == "--proxy-ca-key"@);
        assert(flags[6] == "--pass"@);
        assert(flags[7] == "--listen"@);
        assert(flags[8] == "--port"@);
        assert(flags[9] == "--max-connections"@);
        assert(flags[10] == "--allow-http2"@);
        assert(flags[11] == "--no-auth"@);
        assert(flags[12] == "--trust-proxy-ca"@);
    }
    if flags.contains(flag) {
        lemma_once_not_repeatable(flag);
    }
}

proof fn lemma_once_not_repeatable(flag: Seq<char>)
    requires
        args::once_flags().contains(flag),
    ensures
        once(flag),
{
    reveal_strlit("--allow-domain");
    reveal_strlit("--deny-domain");
    reveal_strlit("--credential");
    reveal_strlit("--allow-endpoint");
    reveal_strlit("--upstream-bypass");
    reveal_strlit("--profile");
    reveal_strlit("--network-profile");
    reveal_strlit("--upstream-proxy");
    reveal_strlit("--proxy-ca-validity");
    reveal_strlit("--proxy-ca-cert");
    reveal_strlit("--proxy-ca-key");
    reveal_strlit("--pass");
    reveal_strlit("--listen");
    reveal_strlit("--port");
    reveal_strlit("--max-connections");
    let third = flag[2];
    let fourth = flag[3];
    assert(repeatable(flag) ==> 12 <= flag.len() <= 17);
}

proof fn lemma_number_of(list: Seq<UseModel>, flag: Seq<char>, max: nat)
    requires
        !repeated(list, flag),
    ensures
        match args::number_of(list, flag, max) {
            Ok(None) => !given(list, flag) && number_fits(list, flag, max),
            Ok(Some(n)) => n <= max && given(list, flag) && number_is(list, flag, n as int, 0)
                && number_fits(list, flag, max),
            Err(error) => !number_fits(list, flag, max) && error == ErrorModel::ConfigParse(
                "invalid value for '"@ + flag + "'"@,
            ),
        },
{
    lemma_value(list, flag);
    if let Some(spelled) = args::value_of(list, flag) {
        let i = choose|i: int| 0 <= i < list.len() && (#[trigger] list[i]).flag == flag;
        assert(list[i].value == spelled);
        law_number_is_read(spelled, max, 0);
        if let Some(n) = args::number(spelled, max) {
            law_number_is_read(spelled, max, n);
            assert forall|j: int| 0 <= j < list.len() && (#[trigger] list[j]).flag
                == flag implies spells_number(list[j].value, n as int) by {
                assert(list[j].value == spelled);
            }
            assert(number_fits(list, flag, max)) by {
                assert forall|j: int| 0 <= j < list.len() && (#[trigger] list[j]).flag
                    == flag implies exists|m: nat|
                    #[trigger] spells_number(list[j].value, m as int) && m <= max by {
                    assert(spells_number(list[j].value, n as int));
                }
            }
        }
    }
}

/// Flags are refused exactly for one of the reasons given; otherwise every
/// argument is what its flag says.
pub proof fn law_arguments_fit(list: Seq<UseModel>, keychain: bool)
    ensures
        match args::args_of_uses(list, keychain) {
            Ok(args) => args_fit(list, args) && forall|error: ErrorModel| !#[trigger]
                refused(list, keychain, error),
            Err(error) => refused(list, keychain, error),
        },
{
    let flags = args::once_flags();
    lemma_first_repeated(list, flags);
    assert forall|flag: Seq<char>| once(flag) <==> #[trigger] flags.contains(flag) by {
        lemma_once(flag);
    }
    assert forall|flag: Seq<char>| args::first_repeated(list, flags) is None && once(
        flag,
    ) implies !#[trigger] repeated(list, flag) by {
        assert(flags.contains(flag));
        assert(flags[flags.index_of(flag)] == flag);
    }
    if args::first_repeated(list, flags) is None {
        lemma_value(list, "--profile"@);
        lemma_value(list, "--network-profile"@);
        lemma_value(list, "--allow-domain"@);
        lemma_value(list, "--deny-domain"@);
        lemma_value(list, "--credential"@);
        lemma_value(list, "--allow-endpoint"@);
        lemma_value(list, "--upstream-proxy"@);
        lemma_value(list, "--upstream-bypass"@);
        lemma_value(list, "--proxy-ca-cert"@);
        lemma_value(list, "--proxy-ca-key"@);
        lemma_value(list, "--proxy-ca-validity"@);
        lemma_value(list, "--trust-proxy-ca"@);
        lemma_value(list, "--allow-http2"@);
        lemma_value(list, "--no-auth"@);
        lemma_value(list, "--pass"@);
        lemma_value(list, "--listen"@);
        assert(once("--proxy-ca-validity"@) && once("--port"@) && once("--max-connections"@))
            by {
            lemma_listed();
        }
        assert(!repeated(list, "--proxy-ca-validity"@));
        assert(!repeated(list, "--port"@));
        assert(!repeated(list, "--max-connections"@));
        lemma_number_of(list, "--proxy-ca-validity"@, u32::MAX as nat);
        lemma_number_of(list, "--port"@, u16::MAX as nat);
        lemma_number_of(list, "--max-connections"@, usize::MAX as nat);
        lemma_all_once();
        assert(!repeated(list, "--profile"@));
        assert(!repeated(list, "--network-profile"@));
        assert(!repeated(list, "--upstream-proxy"@));
        assert(!repeated(list, "--proxy-ca-cert"@));
        assert(!repeated(list, "--proxy-ca-key"@));
        assert(!repeated(list, "--pass"@));
        assert(!repeated(list, "--listen"@));
    }
}

proof fn lemma_all_once()
    ensures
        once("--profile"@),
        once("--network-profile"@),
        once("--upstream-proxy"@),
        once("--proxy-ca-cert"@),
        once("--proxy-ca-key"@),
        once("--pass"@),
        once("--listen"@),
{
    let flags = args::once_flags();
    assert(flags[0] == "--profile"@);
    assert(flags[1] == "--network-profile"@);
    assert(flags[2] == "--upstream-proxy"@);
    assert(flags[4] == "--proxy-ca-cert"@);
    assert(flags[5] == "--proxy-ca-key"@);
    assert(flags[6] == "--pass"@);
    assert(flags[7] == "--listen"@);
    lemma_once("--profile"@);
    lemma_once("--network-profile"@);
    lemma_once("--upstream-proxy"@);
    lemma_once("--proxy-ca-cert"@);
    lemma_once("--proxy-ca-key"@);
    lemma_once("--pass"@);
    lemma_once("--listen"@);
}

proof fn lemma_listed()
    ensures
        once("--proxy-ca-validity"@),
        once("--port"@),
        once("--max-connections"@),
{
    let flags = args::once_flags();
    assert(flags[3] == "--proxy-ca-validity"@);
    assert(flags[8] == "--port"@);
    assert(flags[9] == "--max-connections"@);
    lemma_once("--proxy-ca-validity"@);
    lemma_once("--port"@);
    lemma_once("--max-connections"@);
}

/// The first member of a command line names the program; the rest are its
/// arguments.
pub proof fn law_program_name_is_skipped(
    program: Seq<char>,
    list: Seq<UseModel>,
    apart: Seq<bool>,
    keychain: bool,
)
    requires
        apart.len() == list.len(),
        forall|i: int| 0 <= i < list.len() ==> #[trigger] spellable(list[i], apart[i]),
    ensures
        args::parsed_args(seq![program] + spelling_of(list, apart), keychain)
            == args::args_of_uses(list, keychain),
        args::parsed_args(Seq::empty(), keychain) == args::args_of_uses(Seq::empty(), keychain),
{
    let none = Seq::<Seq<char>>::empty();
    law_arguments_are_read(
        list,
        apart,
        none,
        none[0],
        false,
        ErrorModel::ConfigParse(program),
    );
    let line = seq![program] + spelling_of(list, apart);
    assert(line.skip(1) =~= spelling_of(list, apart));
}

} // verus!
