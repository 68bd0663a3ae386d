use vstd::prelude::*;
use crate::text::{
    all_digits, decimal, decimal_value, digit_char, digit_value, is_digit, is_ws, join_lines, lines,
    parse_u16, trim, trim_end, trim_start,
};
use crate::wireguard::{
    lemma_first_eq_unique, assign, entry, initial_fields, ini_lines, ini_text, is_first_eq,
    keepalive_of, parse_model, scan, step, ConfigModel, DEFAULT_KEEPALIVE,
};

verus! {

/// `s` holds no line break.
pub open spec fn one_line(s: Seq<char>) -> bool {
    forall|i: int| 0 <= i < s.len() ==> s[i] != '\n'
}

/// `line` sets key `k`.
pub open spec fn sets(line: Seq<char>, k: Seq<char>) -> bool {
    entry(line) is Some && entry(line)->Some_0.0 == k
}

/// The value that the last line of `ls` setting `k` gives it.
pub open spec fn last_value(ls: Seq<Seq<char>>, k: Seq<char>) -> Option<Seq<char>>
    decreases ls.len(),
{
    if ls.len() == 0 {
        None
    } else if sets(ls.last(), k) {
        Some(entry(ls.last())->Some_0.1)
    } else {
        last_value(ls.drop_last(), k)
    }
}

/// Some line of the text `s` sets key `k`.
pub open spec fn has_key(s: Seq<char>, k: Seq<char>) -> bool {
    exists|j: int| 0 <= j < lines(s).len() && sets(#[trigger] lines(s)[j], k)
}

/// The mandatory keys, in the order in which their absence is reported.
pub open spec fn mandatory_keys() -> Seq<Seq<char>> {
    seq!["PrivateKey"@, "Address"@, "DNS"@, "PublicKey"@, "Endpoint"@, "AllowedIPs"@]
}

pub open spec fn all_mandatory_present(s: Seq<char>) -> bool {
    forall|i: int| 0 <= i < 6 ==> has_key(s, #[trigger] mandatory_keys()[i])
}

proof fn reveal_keys()
    ensures
        "PrivateKey"@ != "AllowedIPs"@,
        "PrivateKey"@.len() == 10,
        "Address"@.len() == 7,
        "DNS"@.len() == 3,
        "PublicKey"@.len() == 9,
        "Endpoint"@.len() == 8,
        "AllowedIPs"@.len() == 10,
        "PersistentKeepalive"@.len() == 19,
{
    reveal_strlit("PrivateKey");
    reveal_strlit("Address");
    reveal_strlit("DNS");
    reveal_strlit("PublicKey");
    reveal_strlit("Endpoint");
    reveal_strlit("AllowedIPs");
    reveal_strlit("PersistentKeepalive");
    assert("PrivateKey"@[0] != "AllowedIPs"@[0]);
    assert("PrivateKey"@ != "AllowedIPs"@);
    assert("Address"@.len() == 7 && "DNS"@.len() == 3 && "PublicKey"@.len() == 9);
    assert("Endpoint"@.len() == 8 && "PersistentKeepalive"@.len() == 19);
    assert("PrivateKey"@.len() == 10 && "AllowedIPs"@.len() == 10);
}

/// What the scan holds is, for each key, the value of its last line.
proof fn lemma_scan_last_values(ls: Seq<Seq<char>>)
    ensures
        scan(ls).private_key == last_value(ls, "PrivateKey"@),
        scan(ls).address == last_value(ls, "Address"@),
        scan(ls).dns == last_value(ls, "DNS"@),
        scan(ls).peer_public_key == last_value(ls, "PublicKey"@),
        scan(ls).endpoint == last_value(ls, "Endpoint"@),
        scan(ls).allowed_ips == last_value(ls, "AllowedIPs"@),
        scan(ls).persistent_keepalive == match last_value(ls, "PersistentKeepalive"@) {
            Some(v) => keepalive_of(v),
            None => DEFAULT_KEEPALIVE,
        },
    decreases ls.len(),
{
    reveal_keys();
    if ls.len() > 0 {
        lemma_scan_last_values(ls.drop_last());
        let f = scan(ls.drop_last());
        assert(scan(ls) == step(f, ls.last()));
        match entry(ls.last()) {
            Some((k, v)) => {
                assert(scan(ls) == assign(f, k, v));
            },
            None => {},
        }
    }
}

proof fn lemma_last_value_none(ls: Seq<Seq<char>>, k: Seq<char>)
    ensures
        last_value(ls, k) is None <==> forall|j: int| 0 <= j < ls.len() ==> !sets(#[trigger] ls[j], k),
    decreases ls.len(),
{
    if ls.len() > 0 {
        lemma_last_value_none(ls.drop_last(), k);
        if last_value(ls, k) is None {
            assert forall|j: int| 0 <= j < ls.len() implies !sets(#[trigger] ls[j], k) by {
                if j < ls.len() - 1 {
                    assert(ls[j] == ls.drop_last()[j]);
                }
            }
        } else if !sets(ls.last(), k) {
            let j = choose|j: int| 0 <= j < ls.drop_last().len() && sets(#[trigger] ls.drop_last()[j], k);
            assert(sets(ls[j], k));
        }
    }
}

proof fn lemma_has_key(s: Seq<char>, k: Seq<char>)
    ensures
        has_key(s, k) <==> last_value(lines(s), k) is Some,
{
    lemma_last_value_none(lines(s), k);
}

/// Parsing fails, naming `mandatory_keys()[i]`, on a text with no line for that
/// key and a line for each mandatory key before it. With `i == 0` this is the
/// text with no mandatory key at all: it fails on `PrivateKey`.
pub proof fn lemma_missing_field_rejected(s: Seq<char>, i: int)
    requires
        0 <= i < 6,
        !has_key(s, mandatory_keys()[i]),
        forall|j: int| 0 <= j < i ==> has_key(s, #[trigger] mandatory_keys()[j]),
    ensures
        parse_model(s) == Err::<ConfigModel, Seq<char>>(mandatory_keys()[i]),
{
    reveal_keys();
    let ls = lines(s);
    lemma_scan_last_values(ls);
    assert forall|j: int| 0 <= j <= i implies (#[trigger] has_key(s, mandatory_keys()[j])
        <==> last_value(ls, mandatory_keys()[j]) is Some) by {
        lemma_has_key(s, mandatory_keys()[j]);
    }
    if i > 0 {
        assert(has_key(s, mandatory_keys()[0]));
    }
    if i > 1 {
        assert(has_key(s, mandatory_keys()[1]));
    }
    if i > 2 {
        assert(has_key(s, mandatory_keys()[2]));
    }
    if i > 3 {
        assert(has_key(s, mandatory_keys()[3]));
    }
    if i > 4 {
        assert(has_key(s, mandatory_keys()[4]));
    }
}

/// Parsing succeeds exactly when every mandatory key has a line; a text with
/// no `PersistentKeepalive` line gives the default keepalive.
pub proof fn lemma_keepalive_default(s: Seq<char>)
    requires
        !has_key(s, "PersistentKeepalive"@),
    ensures
        (parse_model(s) is Ok) == all_mandatory_present(s),
        parse_model(s) is Ok ==> parse_model(s)->Ok_0.persistent_keepalive == DEFAULT_KEEPALIVE,
{
    lemma_parse_ok_iff_present(s);
    lemma_has_key(s, "PersistentKeepalive"@);
    lemma_scan_last_values(lines(s));
}

/// Parsing succeeds exactly when every mandatory key has a line, whatever the
/// keepalive lines hold; when the last `PersistentKeepalive` line's value does
/// not read as a `u16`, the keepalive is the default.
pub proof fn lemma_keepalive_fallback(s: Seq<char>)
    requires
        last_value(lines(s), "PersistentKeepalive"@) is Some,
        parse_u16(last_value(lines(s), "PersistentKeepalive"@)->Some_0) is None,
    ensures
        (parse_model(s) is Ok) == all_mandatory_present(s),
        parse_model(s) is Ok ==> parse_model(s)->Ok_0.persistent_keepalive == DEFAULT_KEEPALIVE,
{
    lemma_parse_ok_iff_present(s);
    lemma_scan_last_values(lines(s));
}

proof fn lemma_parse_ok_iff_present(s: Seq<char>)
    ensures
        (parse_model(s) is Ok) == all_mandatory_present(s),
{
    reveal_keys();
    let ls = lines(s);
    lemma_scan_last_values(ls);
    assert forall|j: int| 0 <= j < 6 implies (#[trigger] has_key(s, mandatory_keys()[j])
        <==> last_value(ls, mandatory_keys()[j]) is Some) by {
        lemma_has_key(s, mandatory_keys()[j]);
    }
    if all_mandatory_present(s) {
        assert(has_key(s, mandatory_keys()[0]));
        assert(has_key(s, mandatory_keys()[1]));
        assert(has_key(s, mandatory_keys()[2]));
        assert(has_key(s, mandatory_keys()[3]));
        assert(has_key(s, mandatory_keys()[4]));
        assert(has_key(s, mandatory_keys()[5]));
    }
}

/// Two line lists with the same last value for every key give the same fields.
proof fn lemma_same_last_values(l1: Seq<Seq<char>>, l2: Seq<Seq<char>>)
    requires
        forall|k: Seq<char>| last_value(l1, k) == last_value(l2, k),
    ensures
        scan(l1) == scan(l2),
{
    lemma_scan_last_values(l1);
    lemma_scan_last_values(l2);
    assert(last_value(l1, "PrivateKey"@) == last_value(l2, "PrivateKey"@));
    assert(last_value(l1, "Address"@) == last_value(l2, "Address"@));
    assert(last_value(l1, "DNS"@) == last_value(l2, "DNS"@));
    assert(last_value(l1, "PublicKey"@) == last_value(l2, "PublicKey"@));
    assert(last_value(l1, "Endpoint"@) == last_value(l2, "Endpoint"@));
    assert(last_value(l1, "AllowedIPs"@) == last_value(l2, "AllowedIPs"@));
    assert(last_value(l1, "PersistentKeepalive"@) == last_value(l2, "PersistentKeepalive"@));
}

/// `a` and `b` do not set the same key.
pub open spec fn independent(a: Seq<char>, b: Seq<char>) -> bool {
    !(entry(a) is Some && entry(b) is Some && entry(a)->Some_0.0 == entry(b)->Some_0.0)
}

proof fn lemma_swap_last_value(l1: Seq<Seq<char>>, l2: Seq<Seq<char>>, i: int, k: Seq<char>)
    requires
        0 <= i,
        i + 1 < l1.len(),
        l2 == l1.update(i, l1[i + 1]).update(i + 1, l1[i]),
        independent(l1[i], l1[i + 1]),
    ensures
        last_value(l1, k) == last_value(l2, k),
    decreases l1.len(),
{
    if l1.len() > i + 2 {
        assert(l2.drop_last() =~= l1.drop_last().update(i, l1[i + 1]).update(i + 1, l1[i]));
        lemma_swap_last_value(l1.drop_last(), l2.drop_last(), i, k);
        assert(l2.last() == l1.last());
    } else {
        reveal_with_fuel(last_value, 3);
        assert(l1.drop_last().drop_last() =~= l2.drop_last().drop_last());
        assert(l2.last() == l1[i]);
        assert(l2.drop_last().last() == l1[i + 1]);
        assert(l1.drop_last().last() == l1[i]);
        assert(l2.drop_last().drop_last() == l1.drop_last().drop_last());
        if sets(l1[i], k) && sets(l1[i + 1], k) {
            assert(entry(l1[i])->Some_0.0 == entry(l1[i + 1])->Some_0.0);
        }
    }
}

/// Exchanging two neighbouring lines that do not set the same key leaves the
/// result of parsing unchanged; any reordering of lines that keeps the order
/// of lines for the same key is made of such exchanges.
pub proof fn lemma_swap_lines(s1: Seq<char>, s2: Seq<char>, i: int)
    requires
        0 <= i,
        i + 1 < lines(s1).len(),
        lines(s2) == lines(s1).update(i, lines(s1)[i + 1]).update(i + 1, lines(s1)[i]),
        independent(lines(s1)[i], lines(s1)[i + 1]),
    ensures
        parse_model(s1) == parse_model(s2),
{
    assert forall|k: Seq<char>| last_value(lines(s1), k) == last_value(lines(s2), k) by {
        lemma_swap_last_value(lines(s1), lines(s2), i, k);
    }
    lemma_same_last_values(lines(s1), lines(s2));
}

proof fn lemma_remove_last_value(l1: Seq<Seq<char>>, i: int, k: Seq<char>)
    requires
        0 <= i < l1.len(),
        entry(l1[i]) is None,
    ensures
        last_value(l1, k) == last_value(l1.remove(i), k),
    decreases l1.len(),
{
    if l1.len() > i + 1 {
        assert(l1.remove(i).drop_last() =~= l1.drop_last().remove(i));
        lemma_remove_last_value(l1.drop_last(), i, k);
    } else {
        assert(l1.remove(i) =~= l1.drop_last());
    }
}

/// A section header line may stand anywhere or nowhere: removing one leaves
/// the result of parsing unchanged.
pub proof fn lemma_header_ignored(s1: Seq<char>, s2: Seq<char>, i: int)
    requires
        0 <= i < lines(s1).len(),
        trim(lines(s1)[i]).len() > 0,
        trim(lines(s1)[i])[0] == '[',
        lines(s2) == lines(s1).remove(i),
    ensures
        parse_model(s1) == parse_model(s2),
{
    assert forall|k: Seq<char>| last_value(lines(s1), k) == last_value(lines(s2), k) by {
        lemma_remove_last_value(lines(s1), i, k);
    }
    lemma_same_last_values(lines(s1), lines(s2));
}

proof fn lemma_lines_nonempty(s: Seq<char>)
    ensures
        lines(s).len() >= 1,
    decreases s.len(),
{
    if s.len() > 0 {
        lemma_lines_nonempty(s.drop_last());
    }
}

proof fn lemma_lines_append(p: Seq<char>, s: Seq<char>)
    requires
        one_line(s),
    ensures
        lines(p + s) == lines(p).update(lines(p).len() - 1, lines(p).last() + s),
    decreases s.len(),
{
    lemma_lines_nonempty(p);
    if s.len() == 0 {
        assert(p + s =~= p);
        assert(lines(p).last() + s =~= lines(p).last());
        assert(lines(p).update(lines(p).len() - 1, lines(p).last()) =~= lines(p));
    } else {
        let q = s.drop_last();
        lemma_lines_append(p, q);
        assert((p + s).drop_last() =~= p + q);
        assert((p + s).last() == s.last());
        assert(s.last() != '\n');
        let prev = lines(p + q);
        assert(prev.last() == lines(p).last() + q);
        assert((lines(p).last() + q).push(s.last()) =~= lines(p).last() + s);
        assert(prev.update(prev.len() - 1, prev.last().push(s.last())) =~= lines(p).update(
            lines(p).len() - 1,
            lines(p).last() + s,
        ));
    }
}

proof fn lemma_lines_join(ls: Seq<Seq<char>>)
    requires
        forall|j: int| 0 <= j < ls.len() ==> one_line(#[trigger] ls[j]),
    ensures
        lines(join_lines(ls)) == ls.push(Seq::<char>::empty()),
    decreases ls.len(),
{
    if ls.len() == 0 {
        assert(lines(Seq::<char>::empty()) =~= seq![Seq::<char>::empty()]);
        assert(ls.push(Seq::<char>::empty()) =~= seq![Seq::<char>::empty()]);
    } else {
        let prev = ls.drop_last();
        let l = ls.last();
        assert forall|j: int| 0 <= j < prev.len() implies one_line(#[trigger] prev[j]) by {
            assert(prev[j] == ls[j]);
        }
        lemma_lines_join(prev);
        let jp = join_lines(prev);
        assert(join_lines(ls) == jp + l.push('\n'));
        assert(jp + l.push('\n') =~= (jp + l).push('\n'));
        assert(one_line(ls[ls.len() - 1]));
        lemma_lines_append(jp, l);
        assert(Seq::<char>::empty() + l =~= l);
        assert(lines(jp + l) =~= ls);
        assert((jp + l).push('\n').drop_last() =~= jp + l);
    }
}

proof fn lemma_trim_start_len(s: Seq<char>)
    ensures
        trim_start(s).len() <= s.len(),
    decreases s.len(),
{
    if s.len() > 0 && is_ws(s[0]) {
        lemma_trim_start_len(s.drop_first());
    }
}

proof fn lemma_trim_end_len(s: Seq<char>)
    ensures
        trim_end(s).len() <= s.len(),
    decreases s.len(),
{
    if s.len() > 0 && is_ws(s.last()) {
        lemma_trim_end_len(s.drop_last());
    }
}

/// A text with no whitespace at its ends is its own trim.
proof fn lemma_trim_fixed(s: Seq<char>)
    requires
        s.len() > 0,
        !is_ws(s[0]),
        !is_ws(s.last()),
    ensures
        trim(s) == s,
{
}

/// A non-empty text that is its own trim has no whitespace at its ends.
proof fn lemma_trimmed_ends(v: Seq<char>)
    requires
        v.len() > 0,
        trim(v) == v,
    ensures
        !is_ws(v[0]),
        !is_ws(v.last()),
{
    if is_ws(v[0]) {
        lemma_trim_start_len(v.drop_first());
        lemma_trim_end_len(trim_start(v));
    } else {
        assert(trim_start(v) == v);
        if is_ws(v.last()) {
            lemma_trim_end_len(v.drop_last());
        }
    }
}

/// The line `k = v` sets `k` to `v`.
proof fn lemma_entry_of(k: Seq<char>, v: Seq<char>)
    requires
        k.len() > 0,
        !is_ws(k[0]),
        !is_ws(k.last()),
        k[0] != '[',
        forall|j: int| 0 <= j < k.len() ==> k[j] != '=',
        v.len() > 0,
        !is_ws(v[0]),
        !is_ws(v.last()),
    ensures
        entry(k + seq![' ', '=', ' '] + v) == Some((k, v)),
{
    let t = k + seq![' ', '=', ' '] + v;
    assert(t[0] == k[0]);
    assert(t.last() == v.last());
    lemma_trim_fixed(t);
    let e = k.len() as int + 1;
    assert(t[e] == '=');
    assert forall|j: int| 0 <= j < e implies t[j] != '=' by {
        if j < k.len() {
            assert(t[j] == k[j]);
        }
    }
    assert(is_first_eq(t, e));
    lemma_first_eq_unique(t, e);
    assert(t.take(e) =~= k.push(' '));
    assert(k.push(' ').drop_last() =~= k);
    assert(trim_start(k.push(' ')) == k.push(' '));
    assert(trim(k.push(' ')) == trim_end(k));
    assert(trim(k.push(' ')) == k);
    assert(t.skip(e + 1) =~= seq![' '] + v);
    assert((seq![' '] + v).drop_first() =~= v);
    assert(trim_start(seq![' '] + v) == trim_start(v));
    assert(trim(seq![' '] + v) == v);
}

proof fn lemma_digit(d: nat)
    requires
        d < 10,
    ensures
        is_digit(digit_char(d)),
        digit_value(digit_char(d)) == d,
        !is_ws(digit_char(d)),
        digit_char(d) != '+',
{
    assert((digit_char(d) as u32) == d + 48);
}

proof fn lemma_decimal(n: nat)
    ensures
        decimal(n).len() > 0,
        all_digits(decimal(n)),
        decimal_value(decimal(n)) == n,
        !is_ws(decimal(n)[0]),
        !is_ws(decimal(n).last()),
        decimal(n)[0] != '+',
    decreases n,
{
    if n < 10 {
        lemma_digit(n);
        assert(decimal(n).drop_last() =~= Seq::<char>::empty());
        assert(decimal_value(decimal(n)) == decimal_value(Seq::<char>::empty()) * 10 + digit_value(
            digit_char(n),
        ));
    } else {
        lemma_decimal(n / 10);
        lemma_digit(n % 10);
        let s = decimal(n);
        assert(s.drop_last() == decimal(n / 10));
        assert(s.last() == digit_char(n % 10));
        assert(decimal_value(s) == decimal_value(decimal(n / 10)) * 10 + digit_value(s.last()));
        assert(s[0] == decimal(n / 10)[0]);
        assert forall|i: int| 0 <= i < s.len() implies is_digit(#[trigger] s[i]) by {
            if i < s.len() - 1 {
                assert(s[i] == decimal(n / 10)[i]);
            }
        }
    }
}

/// A field value that survives the text form: not empty, on one line, with
/// no whitespace at its ends.
pub open spec fn plain_value(v: Seq<char>) -> bool {
    v.len() > 0 && one_line(v) && trim(v) == v
}

proof fn lemma_labelled_line(label: &str, k: &str, v: Seq<char>)
    requires
        label@ == k@ + seq![' ', '=', ' '],
        k@.len() > 0,
        !is_ws(k@[0]),
        !is_ws(k@.last()),
        k@[0] != '[',
        forall|j: int| 0 <= j < k@.len() ==> k@[j] != '=',
        v.len() > 0,
        !is_ws(v[0]),
        !is_ws(v.last()),
        one_line(v),
        one_line(k@),
    ensures
        entry(label@ + v) == Some((k@, v)),
        one_line(label@ + v),
{
    assert(label@ + v =~= k@ + seq![' ', '=', ' '] + v);
    lemma_entry_of(k@, v);
    assert forall|i: int| 0 <= i < (label@ + v).len() implies (label@ + v)[i] != '\n' by {
        if i >= label@.len() {
            assert((label@ + v)[i] == v[i - label@.len()]);
        } else if i < k@.len() {
            assert((label@ + v)[i] == k@[i]);
        }
    }
}

proof fn lemma_scan_take(ls: Seq<Seq<char>>, k: int)
    requires
        0 <= k < ls.len(),
    ensures
        scan(ls.take(k + 1)) == step(scan(ls.take(k)), ls[k]),
{
    assert(ls.take(k + 1).drop_last() =~= ls.take(k));
}

/// Writing a configuration whose fields are plain values and reading the text
/// back gives the same configuration, field by field.
pub proof fn lemma_round_trip(c: ConfigModel)
    requires
        plain_value(c.private_key),
        plain_value(c.address),
        plain_value(c.dns),
        plain_value(c.peer_public_key),
        plain_value(c.endpoint),
        plain_value(c.allowed_ips),
    ensures
        parse_model(ini_text(c)) == Ok::<ConfigModel, Seq<char>>(c),
{
    reveal_keys();
    reveal_strlit("PrivateKey");
    reveal_strlit("Address");
    reveal_strlit("DNS");
    reveal_strlit("PublicKey");
    reveal_strlit("Endpoint");
    reveal_strlit("AllowedIPs");
    reveal_strlit("PersistentKeepalive");
    reveal_strlit("PrivateKey = ");
    reveal_strlit("Address = ");
    reveal_strlit("DNS = ");
    reveal_strlit("PublicKey = ");
    reveal_strlit("Endpoint = ");
    reveal_strlit("AllowedIPs = ");
    reveal_strlit("PersistentKeepalive = ");
    reveal_strlit("[Interface]");
    reveal_strlit("[Peer]");
    lemma_trimmed_ends(c.private_key);
    lemma_trimmed_ends(c.address);
    lemma_trimmed_ends(c.dns);
    lemma_trimmed_ends(c.peer_public_key);
    lemma_trimmed_ends(c.endpoint);
    lemma_trimmed_ends(c.allowed_ips);
    let ka = decimal(c.persistent_keepalive as nat);
    lemma_decimal(c.persistent_keepalive as nat);
    assert forall|i: int| 0 <= i < ka.len() implies ka[i] != '\n' by {
        assert(is_digit(ka[i]));
    }
    assert("PrivateKey = "@ =~= "PrivateKey"@ + seq![' ', '=', ' ']);
    lemma_labelled_line("PrivateKey = ", "PrivateKey", c.private_key);
    assert("Address = "@ =~= "Address"@ + seq![' ', '=', ' ']);
    lemma_labelled_line("Address = ", "Address", c.address);
    assert("DNS = "@ =~= "DNS"@ + seq![' ', '=', ' ']);
    lemma_labelled_line("DNS = ", "DNS", c.dns);
    assert("PublicKey = "@ =~= "PublicKey"@ + seq![' ', '=', ' ']);
    lemma_labelled_line("PublicKey = ", "PublicKey", c.peer_public_key);
    assert("Endpoint = "@ =~= "Endpoint"@ + seq![' ', '=', ' ']);
    lemma_labelled_line("Endpoint = ", "Endpoint", c.endpoint);
    assert("AllowedIPs = "@ =~= "AllowedIPs"@ + seq![' ', '=', ' ']);
    lemma_labelled_line("AllowedIPs = ", "AllowedIPs", c.allowed_ips);
    assert("PersistentKeepalive = "@ =~= "PersistentKeepalive"@ + seq![' ', '=', ' ']);
    lemma_labelled_line("PersistentKeepalive = ", "PersistentKeepalive", ka);
    assert(parse_u16(ka) == Some(c.persistent_keepalive));
    let ls = ini_lines(c);
    lemma_trim_fixed("[Interface]"@);
    lemma_trim_fixed("[Peer]"@);
    assert(entry(ls[0]) is None);
    assert(trim(ls[4]) =~= Seq::<char>::empty());
    assert(entry(ls[4]) is None);
    assert(entry(ls[5]) is None);
    assert forall|j: int| 0 <= j < ls.len() implies one_line(#[trigger] ls[j]) by {}
    lemma_lines_join(ls);
    let all = ls.push(Seq::<char>::empty());
    assert(trim(Seq::<char>::empty()) =~= Seq::<char>::empty());
    assert(all.drop_last() =~= ls);
    assert(scan(all) == scan(ls));
    assert(ls.take(0) =~= Seq::<Seq<char>>::empty());
    lemma_scan_take(ls, 0);
    lemma_scan_take(ls, 1);
    lemma_scan_take(ls, 2);
    lemma_scan_take(ls, 3);
    lemma_scan_take(ls, 4);
    lemma_scan_take(ls, 5);
    lemma_scan_take(ls, 6);
    lemma_scan_take(ls, 7);
    lemma_scan_take(ls, 8);
    lemma_scan_take(ls, 9);
    assert(ls.take(10) =~= ls);
    let f1 = scan(ls.take(1));
    assert(f1 == initial_fields());
    let f2 = scan(ls.take(2));
    assert(f2 == assign(f1, "PrivateKey"@, c.private_key));
    let f3 = scan(ls.take(3));
    assert(f3 == assign(f2, "Address"@, c.address));
    let f4 = scan(ls.take(4));
    assert(f4 == assign(f3, "DNS"@, c.dns));
    let f6 = scan(ls.take(6));
    assert(scan(ls.take(5)) == f4);
    assert(f6 == f4);
    let f7 = scan(ls.take(7));
    assert(f7 == assign(f6, "PublicKey"@, c.peer_public_key));
    let f8 = scan(ls.take(8));
    assert(f8 == assign(f7, "Endpoint"@, c.endpoint));
    let f9 = scan(ls.take(9));
    assert(f9 == assign(f8, "AllowedIPs"@, c.allowed_ips));
    let f10 = scan(ls.take(10));
    assert(f10 == assign(f9, "PersistentKeepalive"@, ka));
}

} // verus!
