use vstd::prelude::*;
use vstd::string::StringExecFns;
use crate::status::ServerStatus;

verus! {

/// The decimal digit character for `d`.
pub open spec fn dec_digit(d: nat) -> char {
    if d == 0 {
        '0'
    } else if d == 1 {
        '1'
    } else if d == 2 {
        '2'
    } else if d == 3 {
        '3'
    } else if d == 4 {
        '4'
    } else if d == 5 {
        '5'
    } else if d == 6 {
        '6'
    } else if d == 7 {
        '7'
    } else if d == 8 {
        '8'
    } else {
        '9'
    }
}

/// The base-ten rendering of `n`: most significant digit first, no sign, no
/// separators, a single zero digit for zero.
pub open spec fn dec_spec(n: nat) -> Seq<char>
    decreases n,
{
    if n < 10 {
        seq![dec_digit(n)]
    } else {
        dec_spec(n / 10).push(dec_digit(n % 10))
    }
}

fn digit_str(d: u64) -> (r: &'static str)
    requires
        d < 10,
    ensures
        r@ == seq![dec_digit(d as nat)],
{
    if d == 0 {
        proof { reveal_strlit("0"); assert("0"@ =~= seq![dec_digit(0)]); }
        "0"
    } else if d == 1 {
        proof { reveal_strlit("1"); assert("1"@ =~= seq![dec_digit(1)]); }
        "1"
    } else if d == 2 {
        proof { reveal_strlit("2"); assert("2"@ =~= seq![dec_digit(2)]); }
        "2"
    } else if d == 3 {
        proof { reveal_strlit("3"); assert("3"@ =~= seq![dec_digit(3)]); }
        "3"
    } else if d == 4 {
        proof { reveal_strlit("4"); assert("4"@ =~= seq![dec_digit(4)]); }
        "4"
    } else if d == 5 {
        proof { reveal_strlit("5"); assert("5"@ =~= seq![dec_digit(5)]); }
        "5"
    } else if d == 6 {
        proof { reveal_strlit("6"); assert("6"@ =~= seq![dec_digit(6)]); }
        "6"
    } else if d == 7 {
        proof { reveal_strlit("7"); assert("7"@ =~= seq![dec_digit(7)]); }
        "7"
    } else if d == 8 {
        proof { reveal_strlit("8"); assert("8"@ =~= seq![dec_digit(8)]); }
        "8"
    } else {
        proof { reveal_strlit("9"); assert("9"@ =~= seq![dec_digit(9)]); }
        "9"
    }
}

/// Render `n` in base ten.
pub fn u64_to_dec(n: u64) -> (r: String)
    ensures
        r@ == dec_spec(n as nat),
    decreases n,
{
    if n < 10 {
        String::from_str(digit_str(n))
    } else {
        let mut r = u64_to_dec(n / 10);
        r.append(digit_str(n % 10));
        proof {
            assert(r@ =~= dec_spec(n as nat));
        }
        r
    }
}

/// The fixed-shape metrics exposition for one decoded status: three gauges
/// with their type declaration lines, in stable order, integers in base ten.
pub open spec fn format_spec(st: ServerStatus) -> Seq<char> {
    "# TYPE minecraft_players_current gauge\nminecraft_players_current "@
        + dec_spec(st.online as nat)
        + "\n\n# TYPE minecraft_players_max gauge\nminecraft_players_max "@
        + dec_spec(st.max as nat)
        + "\n\n# TYPE minecraft_mod_count gauge\nminecraft_mod_count "@
        + dec_spec(st.mod_count as nat) + "\n"@
}

/// Render the metrics text for `st`.
pub fn format_metrics(st: &ServerStatus) -> (r: String)
    ensures
        r@ == format_spec(*st),
{
    let mut out = String::from_str(
        "# TYPE minecraft_players_current gauge\nminecraft_players_current ",
    );
    let online = u64_to_dec(st.online);
    out.append(online.as_str());
    out.append("\n\n# TYPE minecraft_players_max gauge\nminecraft_players_max ");
    let max = u64_to_dec(st.max);
    out.append(max.as_str());
    out.append("\n\n# TYPE minecraft_mod_count gauge\nminecraft_mod_count ");
    let mods = u64_to_dec(st.mod_count);
    out.append(mods.as_str());
    out.append("\n");
    proof {
        assert(out@ =~= format_spec(*st));
    }
    out
}

} // verus!
