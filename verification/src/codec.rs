use vstd::prelude::*;

use crate::command::{Command, PARAM_COUNT, key_name, spec_param, get_param, param_key};

verus! {

/// The character standing for the hex value `n`.
pub open spec fn hex_digit(n: int) -> char {
    if n == 0 { '0' }
    else if n == 1 { '1' }
    else if n == 2 { '2' }
    else if n == 3 { '3' }
    else if n == 4 { '4' }
    else if n == 5 { '5' }
    else if n == 6 { '6' }
    else if n == 7 { '7' }
    else if n == 8 { '8' }
    else if n == 9 { '9' }
    else if n == 10 { 'a' }
    else if n == 11 { 'b' }
    else if n == 12 { 'c' }
    else if n == 13 { 'd' }
    else if n == 14 { 'e' }
    else { 'f' }
}

/// True for the characters that cannot stand bare inside a JSON string:
/// the quote, the backslash, and the control characters.
pub open spec fn is_special(c: char) -> bool {
    c == '"' || c == '\\' || (c as u32) < 32
}

/// The JSON escape of one character: quote and backslash get a backslash
/// prefix, control characters become a `\u00XX` sequence, and every other
/// character stands for itself.
pub open spec fn esc_char(c: char) -> Seq<char> {
    if c == '"' {
        seq!['\\', '"']
    } else if c == '\\' {
        seq!['\\', '\\']
    } else if (c as u32) < 32 {
        seq!['\\', 'u', '0', '0', hex_digit(c as u32 as int / 16), hex_digit(c as u32 as int % 16)]
    } else {
        seq![c]
    }
}

/// The JSON escape of a whole string body.
pub open spec fn esc(s: Seq<char>) -> Seq<char>
    decreases s.len(),
{
    if s.len() == 0 {
        Seq::<char>::empty()
    } else {
        esc_char(s[0]) + esc(s.skip(1))
    }
}

/// `s` as a JSON string token: quoted and escaped.
pub open spec fn quoted(s: Seq<char>) -> Seq<char> {
    seq!['"'] + esc(s) + seq!['"']
}

/// One `"key":"value"` member of the JSON object.
pub open spec fn pair_enc(k: Seq<char>, v: Seq<char>) -> Seq<char> {
    quoted(k) + seq![':'] + quoted(v)
}

/// The members for the parameters of `c` from schema position `i` on, each
/// preceded by a comma; parameters that are unset are omitted entirely.
pub open spec fn enc_params(c: Command, i: int) -> Seq<char>
    decreases PARAM_COUNT - i,
{
    if i < 0 || i >= PARAM_COUNT {
        Seq::<char>::empty()
    } else {
        (match spec_param(c, i) {
            Some(v) => seq![','] + pair_enc(key_name(i), v),
            None => Seq::<char>::empty(),
        }) + enc_params(c, i + 1)
    }
}

/// The canonical JSON encoding of a command: one object whose first member
/// is the action, followed by the set parameters in schema order.
pub open spec fn enc_command(c: Command) -> Seq<char> {
    seq!['{'] + pair_enc("action"@, c.action@) + enc_params(c, 0) + seq!['}']
}

/// Escaping distributes over concatenation.
proof fn lemma_esc_append(a: Seq<char>, b: Seq<char>)
    ensures
        esc(a + b) == esc(a) + esc(b),
    decreases a.len(),
{
    if a.len() == 0 {
        assert(a + b =~= b);
        assert(esc(a) + esc(b) =~= esc(b));
    } else {
        assert((a + b).skip(1) =~= a.skip(1) + b);
        lemma_esc_append(a.skip(1), b);
        assert(esc(a + b) =~= esc(a) + esc(b));
    }
}

/// Escaping one more character appends that character's escape.
proof fn lemma_esc_snoc(s: Seq<char>, i: int)
    requires
        0 <= i < s.len(),
    ensures
        esc(s.take(i + 1)) == esc(s.take(i)) + esc_char(s[i]),
{
    assert(s.take(i + 1) =~= s.take(i) + seq![s[i]]);
    lemma_esc_append(s.take(i), seq![s[i]]);
    assert(seq![s[i]].skip(1) =~= Seq::<char>::empty());
    assert(esc(Seq::<char>::empty()) == Seq::<char>::empty());
    assert(esc(seq![s[i]]) == esc_char(s[i]) + esc(seq![s[i]].skip(1)));
    assert(esc_char(s[i]) + Seq::<char>::empty() =~= esc_char(s[i]));
}

/// The string form of one hex digit.
pub(crate) fn hex_digit_str(d: u8) -> (r: &'static str)
    requires
        d < 16,
    ensures
        r@ == seq![hex_digit(d as int)],
{
    proof {
        reveal_strlit("0"); reveal_strlit("1"); reveal_strlit("2"); reveal_strlit("3");
        reveal_strlit("4"); reveal_strlit("5"); reveal_strlit("6"); reveal_strlit("7");
        reveal_strlit("8"); reveal_strlit("9"); reveal_strlit("a"); reveal_strlit("b");
        reveal_strlit("c"); reveal_strlit("d"); reveal_strlit("e"); reveal_strlit("f");
    }
    let r: &'static str = match d {
        0 => "0",
        1 => "1",
        2 => "2",
        3 => "3",
        4 => "4",
        5 => "5",
        6 => "6",
        7 => "7",
        8 => "8",
        9 => "9",
        10 => "a",
        11 => "b",
        12 => "c",
        13 => "d",
        14 => "e",
        _ => "f",
    };
    proof {
        assert(r@ =~= seq![hex_digit(d as int)]);
    }
    r
}

/// Appends the JSON escape of `s` to `out`.
fn append_escaped(out: &mut String, s: &str)
    ensures
        final(out)@ == old(out)@ + esc(s@),
{
    let n = s.unicode_len();
    let mut i: usize = 0;
    while i < n
        invariant
            i <= n,
            n == s@.len(),
            out@ == old(out)@ + esc(s@.take(i as int)),
        decreases n - i,
    {
        let c = s.get_char(i);
        if c == '"' {
            out.append("\\\"");
            proof {
                reveal_strlit("\\\"");
                assert("\\\""@ =~= esc_char(c));
            }
        } else if c == '\\' {
            out.append("\\\\");
            proof {
                reveal_strlit("\\\\");
                assert("\\\\"@ =~= esc_char(c));
            }
        } else if (c as u32) < 32 {
            out.append("\\u00");
            let code: u32 = c as u32;
            out.append(hex_digit_str((code / 16) as u8));
            out.append(hex_digit_str((code % 16) as u8));
            proof {
                reveal_strlit("\\u00");
                assert("\\u00"@ + seq![hex_digit(code as int / 16)] + seq![hex_digit(code as int % 16)]
                    =~= esc_char(c));
            }
        } else {
            let piece = s.substring_char(i, i + 1);
            out.append(piece);
            proof {
                assert(piece@ =~= seq![s@[i as int]]);
                assert(piece@ =~= esc_char(c));
            }
        }
        proof {
            lemma_esc_snoc(s@, i as int);
        }
        i += 1;
    }
    proof {
        assert(s@.take(n as int) =~= s@);
    }
}

/// Appends `s` to `out` as a quoted, escaped JSON string token.
fn append_quoted(out: &mut String, s: &str)
    ensures
        final(out)@ == old(out)@ + quoted(s@),
{
    proof {
        reveal_strlit("\"");
    }
    out.append("\"");
    append_escaped(out, s);
    out.append("\"");
    proof {
        assert(out@ =~= old(out)@ + quoted(s@));
    }
}

/// Serializes `c` to its canonical JSON encoding.
///
/// The result is one JSON object: the `action` member first, then one
/// member per set parameter, in schema order, with unset parameters
/// omitted (never encoded as null or as an empty string).
pub fn encode_command(c: &Command) -> (r: String)
    ensures
        r@ == enc_command(*c),
{
    proof {
        reveal_strlit("{");
        reveal_strlit("}");
        reveal_strlit(":");
        reveal_strlit(",");
    }
    let mut out = String::new();
    out.append("{");
    append_quoted(&mut out, "action");
    out.append(":");
    append_quoted(&mut out, c.action.as_str());
    proof {
        assert(out@ + enc_params(*c, 0) + seq!['}'] =~= enc_command(*c));
    }
    let mut i: usize = 0;
    while i < PARAM_COUNT
        invariant
            i <= PARAM_COUNT,
            out@ + enc_params(*c, i as int) + seq!['}'] =~= enc_command(*c),
        decreases PARAM_COUNT - i,
    {
        let ghost out_before: Seq<char> = out@;
        if let Some(v) = get_param(c, i) {
            out.append(",");
            append_quoted(&mut out, param_key(i));
            out.append(":");
            append_quoted(&mut out, v.as_str());
            proof {
                reveal_strlit(",");
                reveal_strlit(":");
                assert(out@ =~= out_before + (seq![','] + pair_enc(key_name(i as int), v@)));
            }
        }
        proof {
            assert(out@ + enc_params(*c, i + 1) + seq!['}'] =~= enc_command(*c));
        }
        i += 1;
    }
    out.append("}");
    proof {
        assert(enc_params(*c, PARAM_COUNT as int) =~= Seq::<char>::empty());
        assert(out@ =~= enc_command(*c));
    }
    out
}

/// Equal sequences stay equal when a shared prefix is removed.
proof fn lemma_prepend_cancel(p: Seq<char>, x: Seq<char>, y: Seq<char>)
    requires
        p + x == p + y,
    ensures
        x == y,
{
    assert((p + x).len() == p.len() + x.len());
    assert((p + y).len() == p.len() + y.len());
    assert(x.len() == y.len());
    assert forall|k: int| 0 <= k < x.len() implies x[k] == y[k] by {
        assert(0 <= p.len() + k < (p + x).len());
        assert((p + x)[p.len() + k] == x[k]);
        assert((p + y)[p.len() + k] == y[k]);
    }
    assert(x =~= y);
}

/// The escape of one character determines that character: when two escapes
/// start one shared sequence, the characters and the tails agree.
proof fn lemma_esc_char_cancel(x: char, y: char, s1: Seq<char>, s2: Seq<char>)
    requires
        esc_char(x) + s1 == esc_char(y) + s2,
    ensures
        x == y,
        s1 == s2,
{
    let e = esc_char(x) + s1;
    assert(e[0] == esc_char(x)[0]);
    assert(e[0] == esc_char(y)[0]);
    if !is_special(x) && !is_special(y) {
        assert(x == y);
    } else if is_special(x) && is_special(y) {
        assert(e[1] == esc_char(x)[1]);
        assert(e[1] == esc_char(y)[1]);
        if (x as u32) < 32 && (y as u32) < 32 {
            assert(e[4] == esc_char(x)[4] && e[5] == esc_char(x)[5]);
            assert(e[4] == esc_char(y)[4] && e[5] == esc_char(y)[5]);
            assert(hex_digit(x as u32 as int / 16) == hex_digit(y as u32 as int / 16));
            assert(hex_digit(x as u32 as int % 16) == hex_digit(y as u32 as int % 16));
            assert(x as u32 as int / 16 == y as u32 as int / 16);
            assert(x as u32 as int % 16 == y as u32 as int % 16);
            assert(x as u32 == y as u32);
            assert(x == y);
        } else {
            assert(x == y);
        }
    } else {
        // one special, one not: the first character of the escape would have
        // to be a backslash and at once a non-special character
        assert(false);
    }
    lemma_prepend_cancel(esc_char(x), s1, s2);
}

/// Two escaped bodies followed by a quote determine each other: the bodies
/// and the tails agree. The quote can close an escaped string because no
/// escape ever puts a bare quote into the output.
proof fn lemma_esc_cancel(a: Seq<char>, b: Seq<char>, ra: Seq<char>, rb: Seq<char>)
    requires
        esc(a) + ra == esc(b) + rb,
        ra.len() > 0,
        rb.len() > 0,
        ra[0] == '"',
        rb[0] == '"',
    ensures
        a == b,
        ra == rb,
    decreases a.len(),
{
    let e = esc(a) + ra;
    if a.len() == 0 && b.len() == 0 {
        assert(ra =~= rb);
    } else if a.len() == 0 {
        assert(e[0] == ra[0]);
        assert(esc(b) == esc_char(b[0]) + esc(b.skip(1)));
        assert(esc_char(b[0]).len() > 0);
        assert(e[0] == esc_char(b[0])[0]);
        assert(esc_char(b[0])[0] != '"');
        assert(false);
    } else if b.len() == 0 {
        assert(e[0] == rb[0]);
        assert(esc(a) == esc_char(a[0]) + esc(a.skip(1)));
        assert(esc_char(a[0]).len() > 0);
        assert(e[0] == esc_char(a[0])[0]);
        assert(esc_char(a[0])[0] != '"');
        assert(false);
    } else {
        assert((esc_char(a[0]) + esc(a.skip(1))) + ra =~= esc_char(a[0]) + (esc(a.skip(1)) + ra));
        assert((esc_char(b[0]) + esc(b.skip(1))) + rb =~= esc_char(b[0]) + (esc(b.skip(1)) + rb));
        lemma_esc_char_cancel(a[0], b[0], esc(a.skip(1)) + ra, esc(b.skip(1)) + rb);
        lemma_esc_cancel(a.skip(1), b.skip(1), ra, rb);
        assert forall|k: int| 0 <= k < a.len() implies a[k] == b[k] by {
            if k > 0 {
                assert(a.skip(1)[k - 1] == a[k]);
                assert(b.skip(1)[k - 1] == b[k]);
            }
        }
        assert(a =~= b);
    }
}

/// The first schema position at or after `i` whose parameter is set, or
/// `PARAM_COUNT` when none is.
spec fn first_set(c: Command, i: int) -> int
    decreases PARAM_COUNT - i,
{
    if i < 0 || i >= PARAM_COUNT {
        PARAM_COUNT as int
    } else if spec_param(c, i) is Some {
        i
    } else {
        first_set(c, i + 1)
    }
}

/// The parameter members from position `i` on are either empty or start
/// with the member of the first set parameter.
proof fn lemma_params_shape(c: Command, i: int)
    requires
        0 <= i <= PARAM_COUNT,
    ensures
        i <= first_set(c, i) <= PARAM_COUNT,
        first_set(c, i) == PARAM_COUNT ==> enc_params(c, i) == Seq::<char>::empty(),
        first_set(c, i) < PARAM_COUNT ==> i <= first_set(c, i) && spec_param(c, first_set(c, i)) is Some
            && enc_params(c, i) == seq![','] + pair_enc(
                key_name(first_set(c, i)),
                spec_param(c, first_set(c, i))->Some_0,
            ) + enc_params(c, first_set(c, i) + 1),
    decreases PARAM_COUNT - i,
{
    if i == PARAM_COUNT {
    } else if spec_param(c, i) is Some {
        assert(enc_params(c, i) =~= seq![','] + pair_enc(key_name(i), spec_param(c, i)->Some_0)
            + enc_params(c, i + 1));
    } else {
        lemma_params_shape(c, i + 1);
        assert(enc_params(c, i) =~= enc_params(c, i + 1));
    }
}

/// One comma-led parameter member followed by a tail, reassociated so that
/// the escaped key and the escaped value each stand before a quote.
spec fn member_front(k: Seq<char>, v: Seq<char>, t: Seq<char>) -> Seq<char> {
    seq![',', '"'] + (esc(k) + (seq!['"', ':', '"'] + (esc(v) + (seq!['"'] + t))))
}

proof fn lemma_member_front(k: Seq<char>, v: Seq<char>, t: Seq<char>)
    ensures
        (seq![','] + pair_enc(k, v)) + t == member_front(k, v, t),
{
    assert((seq![','] + pair_enc(k, v)) + t =~= member_front(k, v, t));
}

/// Equal parameter encodings mean equal parameters, position by position.
proof fn lemma_params_inj(c1: Command, c2: Command, i: int)
    requires
        0 <= i <= PARAM_COUNT,
        enc_params(c1, i) + seq!['}'] == enc_params(c2, i) + seq!['}'],
    ensures
        forall|j: int| i <= j < PARAM_COUNT ==> spec_param(c1, j) == spec_param(c2, j),
    decreases PARAM_COUNT - i,
{
    if i < PARAM_COUNT {
        if spec_param(c1, i) is Some && spec_param(c2, i) is Some {
            let v1 = spec_param(c1, i)->Some_0;
            let v2 = spec_param(c2, i)->Some_0;
            let t1 = enc_params(c1, i + 1) + seq!['}'];
            let t2 = enc_params(c2, i + 1) + seq!['}'];
            assert(enc_params(c1, i) + seq!['}'] =~= (seq![','] + pair_enc(key_name(i), v1))
                + t1);
            assert(enc_params(c2, i) + seq!['}'] =~= (seq![','] + pair_enc(key_name(i), v2))
                + t2);
            lemma_member_front(key_name(i), v1, t1);
            lemma_member_front(key_name(i), v2, t2);
            lemma_prepend_cancel(
                seq![',', '"'],
                esc(key_name(i)) + (seq!['"', ':', '"'] + (esc(v1) + (seq!['"'] + t1))),
                esc(key_name(i)) + (seq!['"', ':', '"'] + (esc(v2) + (seq!['"'] + t2))),
            );
            lemma_prepend_cancel(
                esc(key_name(i)),
                seq!['"', ':', '"'] + (esc(v1) + (seq!['"'] + t1)),
                seq!['"', ':', '"'] + (esc(v2) + (seq!['"'] + t2)),
            );
            lemma_prepend_cancel(
                seq!['"', ':', '"'],
                esc(v1) + (seq!['"'] + t1),
                esc(v2) + (seq!['"'] + t2),
            );
            assert((seq!['"'] + t1)[0] == '"');
            assert((seq!['"'] + t2)[0] == '"');
            lemma_esc_cancel(v1, v2, seq!['"'] + t1, seq!['"'] + t2);
            lemma_prepend_cancel(seq!['"'], t1, t2);
            lemma_params_inj(c1, c2, i + 1);
            assert(spec_param(c1, i) == spec_param(c2, i));
        } else if spec_param(c1, i) is None && spec_param(c2, i) is None {
            assert(enc_params(c1, i) =~= enc_params(c1, i + 1));
            assert(enc_params(c2, i) =~= enc_params(c2, i + 1));
            lemma_params_inj(c1, c2, i + 1);
        } else {
            // one side sets the parameter at `i`, the other does not: its
            // encoding would have to open with a later parameter's key
            if spec_param(c1, i) is Some {
                lemma_one_sided(c1, c2, i);
            } else {
                lemma_one_sided(c2, c1, i);
            }
        }
    }
}

/// The mixed case of [`lemma_params_inj`] cannot arise: were `ca` to set
/// parameter `i` while `cb` leaves it unset, `cb`'s encoding would have to
/// open with a later parameter's key, and keys are distinct.
proof fn lemma_one_sided(ca: Command, cb: Command, i: int)
    requires
        0 <= i < PARAM_COUNT,
        spec_param(ca, i) is Some,
        enc_params(ca, i) + seq!['}'] == enc_params(cb, i) + seq!['}'],
    ensures
        spec_param(cb, i) is Some,
{
    if spec_param(cb, i) is Some {
    } else {
        lemma_one_sided_contra(ca, cb, i);
    }
}

proof fn lemma_one_sided_contra(ca: Command, cb: Command, i: int)
    requires
        0 <= i < PARAM_COUNT,
        spec_param(ca, i) is Some,
        spec_param(cb, i) is None,
        enc_params(ca, i) + seq!['}'] == enc_params(cb, i) + seq!['}'],
    ensures
        spec_param(cb, i) is Some,
{
    let va = spec_param(ca, i)->Some_0;
    let ta = enc_params(ca, i + 1) + seq!['}'];
    assert(enc_params(ca, i) + seq!['}'] =~= (seq![','] + pair_enc(key_name(i), va)) + ta);
    lemma_member_front(key_name(i), va, ta);
    assert(enc_params(cb, i) =~= enc_params(cb, i + 1));
    lemma_params_shape(cb, i + 1);
    let j = first_set(cb, i + 1);
    if j == PARAM_COUNT {
        // the other side is already at the closing brace
        assert((enc_params(cb, i) + seq!['}'])[0] == '}');
        assert(member_front(key_name(i), va, ta)[0] == ',');
    } else {
        let vb = spec_param(cb, j)->Some_0;
        let tb = enc_params(cb, j + 1) + seq!['}'];
        assert(enc_params(cb, i) + seq!['}'] =~= (seq![','] + pair_enc(key_name(j), vb)) + tb);
        lemma_member_front(key_name(j), vb, tb);
        lemma_prepend_cancel(
            seq![',', '"'],
            esc(key_name(i)) + (seq!['"', ':', '"'] + (esc(va) + (seq!['"'] + ta))),
            esc(key_name(j)) + (seq!['"', ':', '"'] + (esc(vb) + (seq!['"'] + tb))),
        );
        assert((seq!['"', ':', '"'] + (esc(va) + (seq!['"'] + ta)))[0] == '"');
        assert((seq!['"', ':', '"'] + (esc(vb) + (seq!['"'] + tb)))[0] == '"');
        lemma_esc_cancel(
            key_name(i),
            key_name(j),
            seq!['"', ':', '"'] + (esc(va) + (seq!['"'] + ta)),
            seq!['"', ':', '"'] + (esc(vb) + (seq!['"'] + tb)),
        );
        crate::command::lemma_keys_distinct(i, j);
    }
}

/// LAW: the canonical encoding is lossless. Two commands with one and the
/// same encoding agree on the action and on every parameter, so no decoder
/// of the wire format can confuse two different commands, and
/// round-tripping a command through its JSON frame preserves every set
/// value exactly and invents none.
pub proof fn lemma_encode_injective(c1: Command, c2: Command)
    requires
        enc_command(c1) == enc_command(c2),
    ensures
        c1.action@ == c2.action@,
        forall|i: int| 0 <= i < PARAM_COUNT ==> spec_param(c1, i) == spec_param(c2, i),
{
    let p0 = seq!['{', '"'] + esc("action"@) + seq!['"', ':', '"'];
    let r1 = seq!['"'] + (enc_params(c1, 0) + seq!['}']);
    let r2 = seq!['"'] + (enc_params(c2, 0) + seq!['}']);
    assert(enc_command(c1) =~= p0 + (esc(c1.action@) + r1));
    assert(enc_command(c2) =~= p0 + (esc(c2.action@) + r2));
    lemma_prepend_cancel(p0, esc(c1.action@) + r1, esc(c2.action@) + r2);
    assert(r1[0] == '"');
    assert(r2[0] == '"');
    lemma_esc_cancel(c1.action@, c2.action@, r1, r2);
    lemma_prepend_cancel(seq!['"'], enc_params(c1, 0) + seq!['}'], enc_params(c2, 0) + seq!['}']);
    lemma_params_inj(c1, c2, 0);
}

/// A command with no parameters set encodes to an object with the action
/// as its only member.
pub proof fn lemma_action_only_encoding(c: Command)
    requires
        crate::command::params_all_none(c),
    ensures
        enc_command(c) == seq!['{'] + pair_enc("action"@, c.action@) + seq!['}'],
{
    lemma_params_none_empty(c, 0);
    assert(enc_command(c) =~= seq!['{'] + pair_enc("action"@, c.action@) + seq!['}']);
}

proof fn lemma_params_none_empty(c: Command, i: int)
    requires
        0 <= i <= PARAM_COUNT,
        crate::command::params_all_none(c),
    ensures
        enc_params(c, i) == Seq::<char>::empty(),
    decreases PARAM_COUNT - i,
{
    if i < PARAM_COUNT {
        lemma_params_none_empty(c, i + 1);
        assert(enc_params(c, i) =~= enc_params(c, i + 1));
    }
}

/// LAW: a frame of a command with only the action set names that action
/// and nothing else — any command behind the same frame has the same
/// action and no parameter set.
pub proof fn lemma_round_trip_action_only(c: Command, d: Command)
    requires
        crate::command::params_all_none(c),
        enc_command(d) == enc_command(c),
    ensures
        d.action@ == c.action@,
        crate::command::params_all_none(d),
{
    lemma_encode_injective(d, c);
}

/// LAW: two commands with distinct actions produce distinct request
/// frames, so two sequential calls can never hand the socket one and the
/// same frame twice by accident.
pub proof fn lemma_distinct_actions_distinct_frames(c1: Command, c2: Command)
    requires
        c1.action@ != c2.action@,
    ensures
        enc_command(c1) != enc_command(c2),
{
    if enc_command(c1) == enc_command(c2) {
        lemma_encode_injective(c1, c2);
    }
}

} // verus!
