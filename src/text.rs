use vstd::prelude::*;

use crate::items::{
    status_wf, ShipStatus, Upgrades, BERSERK_PERCENT, DAMAGE_STEP, HULL_UPGRADE, LEECH_COUNT, SHOT_FREQUENCY_STEP,
    SHOT_SPEED_STEP, SPEED_STEP,
};
use crate::field::{STUN_CHANCE_PERMILLE, STUN_DURATION_MS};

verus! {

pub open spec fn digit_char(d: int) -> char {
    if d == 0 {
        '0'
    } else if d == 1 {
        '1'
    } else if d == 2 {
        '2'
    } else if d == 3 {
        '3'
    } else if d == 4 {
        '4'
    } else if d == 5 {
        '5'
    } else if d == 6 {
        '6'
    } else if d == 7 {
        '7'
    } else if d == 8 {
        '8'
    } else {
        '9'
    }
}

/// Decimal digits of `n`, most significant first.
pub open spec fn decimal(n: nat) -> Seq<char>
    decreases n,
{
    if n < 10 {
        seq![digit_char(n as int)]
    } else {
        decimal(n / 10).push(digit_char((n % 10) as int))
    }
}

pub open spec fn zeros(k: int) -> Seq<char>
    decreases k,
{
    if k <= 0 {
        Seq::empty()
    } else {
        zeros(k - 1).push('0')
    }
}

/// An integer written with at least three characters, zero-padded after
/// the sign.
pub open spec fn padded3(n: int) -> Seq<char> {
    if n >= 0 {
        zeros(3 - decimal(n as nat).len()) + decimal(n as nat)
    } else {
        seq!['-'] + zeros(2 - decimal((-n) as nat).len()) + decimal((-n) as nat)
    }
}

fn digit_str(d: u64) -> (r: &'static str)
    requires
        d < 10,
    ensures
        r@ == seq![digit_char(d as int)],
{
    proof {
        reveal_strlit("0");
        reveal_strlit("1");
        reveal_strlit("2");
        reveal_strlit("3");
        reveal_strlit("4");
        reveal_strlit("5");
        reveal_strlit("6");
        reveal_strlit("7");
        reveal_strlit("8");
        reveal_strlit("9");
    }
    if d == 0 {
        "0"
    } else if d == 1 {
        "1"
    } else if d == 2 {
        "2"
    } else if d == 3 {
        "3"
    } else if d == 4 {
        "4"
    } else if d == 5 {
        "5"
    } else if d == 6 {
        "6"
    } else if d == 7 {
        "7"
    } else if d == 8 {
        "8"
    } else {
        "9"
    }
}

fn push_decimal(s: &mut String, n: u64)
    ensures
        final(s)@ == old(s)@ + decimal(n as nat),
    decreases n,
{
    if n >= 10 {
        push_decimal(s, n / 10);
        let ghost mid = s@;
        s.append(digit_str(n % 10));
        assert(s@ =~= old(s)@ + decimal(n as nat));
    } else {
        s.append(digit_str(n));
        assert(s@ =~= old(s)@ + decimal(n as nat));
    }
}

fn decimal_len(n: u64) -> (r: u64)
    ensures
        r == decimal(n as nat).len(),
        1 <= r <= n + 1,
    decreases n,
{
    if n >= 10 {
        1 + decimal_len(n / 10)
    } else {
        1
    }
}

fn push_zeros(s: &mut String, k: u64)
    ensures
        final(s)@ == old(s)@ + zeros(k as int),
{
    proof {
        reveal_strlit("0");
    }
    let mut i: u64 = 0;
    while i < k
        invariant
            i <= k,
            s@ == old(s)@ + zeros(i as int),
        decreases k - i,
    {
        proof {
            reveal_strlit("0");
        }
        s.append("0");
        assert(s@ =~= old(s)@ + zeros(i as int + 1));
        i = i + 1;
    }
}

/// The credits counter: `Credits: ` and the amount on at least three
/// characters, zero-padded.
pub fn format_credits(credits: i16) -> (r: String)
    ensures
        r@ == "Credits: "@ + padded3(credits as int),
{
    let mut s = String::from_str("Credits: ");
    let ghost head = s@;
    if credits >= 0 {
        let n = credits as u64;
        let len = decimal_len(n);
        if len < 3 {
            push_zeros(&mut s, 3 - len);
        } else {
            push_zeros(&mut s, 0);
        }
        push_decimal(&mut s, n);
        assert(s@ =~= head + padded3(credits as int));
    } else {
        proof {
            reveal_strlit("-");
        }
        s.append("-");
        let n = (-(credits as i32)) as u64;
        let len = decimal_len(n);
        if len < 2 {
            push_zeros(&mut s, 2 - len);
        } else {
            push_zeros(&mut s, 0);
        }
        push_decimal(&mut s, n);
        assert(s@ =~= head + padded3(credits as int));
    }
    s
}

/// The inventory counter: `M` and the missiles, then ` S` and the shields.
pub fn format_items(status: &ShipStatus) -> (r: String)
    ensures
        r@ == "M"@ + decimal(status.missiles as nat) + " S"@ + decimal(status.shields as nat),
{
    let mut s = String::from_str("M");
    push_decimal(&mut s, status.missiles as u64);
    s.append(" S");
    push_decimal(&mut s, status.shields as u64);
    s
}

/// A per-mille multiplier written with two decimals, truncated: `1.20` for
/// 1200.
pub open spec fn two_decimals(m: nat) -> Seq<char> {
    decimal(m / 1000) + seq!['.'] + seq![digit_char(((m % 1000) / 100) as int), digit_char(((m % 100) / 10) as int)]
}

fn push_two_decimals(s: &mut String, m: u64)
    ensures
        final(s)@ == old(s)@ + two_decimals(m as nat),
{
    proof {
        reveal_strlit(".");
    }
    push_decimal(s, m / 1000);
    s.append(".");
    s.append(digit_str((m % 1000) / 100));
    s.append(digit_str((m % 100) / 10));
    assert(s@ =~= old(s)@ + two_decimals(m as nat));
}

/// `prefix`, a decimal number and `suffix`.
fn with_number(prefix: &str, n: u64, suffix: &str) -> (r: String)
    ensures
        r@ == prefix@ + decimal(n as nat) + suffix@,
{
    let mut s = String::from_str(prefix);
    push_decimal(&mut s, n);
    s.append(suffix);
    s
}

/// `prefix` and a per-mille multiplier written with two decimals.
fn with_multiplier(prefix: &str, m: u64) -> (r: String)
    ensures
        r@ == prefix@ + two_decimals(m as nat),
{
    let mut s = String::from_str(prefix);
    push_two_decimals(&mut s, m);
    s
}

/// The three lines describing an upgrade in the upgrade station, with the
/// ship's current value for a stat upgrade.
pub open spec fn upgrade_text(u: Upgrades, s: ShipStatus) -> (Seq<char>, Seq<char>, Seq<char>) {
    match u {
        Upgrades::Speed => ("Improves ship speed"@, "by "@ + decimal((SPEED_STEP / 10) as nat) + "%."@,
            "Current: x"@ + two_decimals((1000 + SPEED_STEP * crate::items::count_of(s.upgrades@, Upgrades::Speed)) as nat)),
        Upgrades::ShotSpeed => ("Improves shot speed"@, "by "@ + decimal((SHOT_SPEED_STEP / 10) as nat) + "%."@,
            "Current: x"@ + two_decimals((1000 + SHOT_SPEED_STEP * crate::items::count_of(s.upgrades@, Upgrades::ShotSpeed)) as nat)),
        Upgrades::ShotFrequency => ("Makes your ship shoot"@, ""@ + decimal((SHOT_FREQUENCY_STEP / 10) as nat) + "% faster."@,
            "Current: x"@ + two_decimals((1000 + SHOT_FREQUENCY_STEP * crate::items::count_of(s.upgrades@, Upgrades::ShotFrequency)) as nat)),
        Upgrades::Hull => ("Improves hull"@, "resistance by "@ + decimal((HULL_UPGRADE / 1000) as nat) + "."@,
            "Current: "@ + decimal((s.max_health / 1000) as nat) + ""@),
        Upgrades::Damage => ("Improves shot damage"@, "by "@ + decimal((DAMAGE_STEP / 10) as nat) + "%."@,
            "Current: x"@ + two_decimals((1000 + DAMAGE_STEP * crate::items::count_of(s.upgrades@, Upgrades::Damage)) as nat)),
        Upgrades::BouncingShots => ("Make shots bounce"@, "against the edges"@, "of the screen."@),
        Upgrades::PiercingShots => ("Make shots go"@, "through multiple"@, "enemies."@),
        Upgrades::StunShots => ("Shots have a "@ + decimal((STUN_CHANCE_PERMILLE / 10) as nat) + "%"@, "chance to mute an"@,
            "enemy for "@ + decimal((STUN_DURATION_MS / 1000) as nat) + "s on hit."@),
        Upgrades::LeechShots => ("Repair hull by 1"@, "after killing "@ + decimal(LEECH_COUNT as nat) + ""@, "enemies."@),
        Upgrades::BetterShields => ("Make shields last"@, "twice as long."@, ""@),
        Upgrades::BetterMissiles => ("Shoot two missiles"@, "for the price of one."@, ""@),
        Upgrades::SideShots => ("Equip your ship"@, "with diagonal shots."@, ""@),
        Upgrades::Berserk => ("Double damage dealt"@, "when hull resistance"@, "is <"@ + decimal(BERSERK_PERCENT as nat) + "%."@),
    }
}

impl Upgrades {
    /// The three lines describing the upgrade in the upgrade station.
    pub fn description(&self, status: &ShipStatus) -> (r: (String, String, String))
        requires
            status_wf(*status),
        ensures
            (r.0@, r.1@, r.2@) == upgrade_text(*self, *status),
    {
        match self {
            Upgrades::Speed => (
                String::from_str("Improves ship speed"),
                with_number("by ", SPEED_STEP / 10, "%."),
                with_multiplier("Current: x", status.speed_multiplier()),
            ),
            Upgrades::ShotSpeed => (
                String::from_str("Improves shot speed"),
                with_number("by ", SHOT_SPEED_STEP / 10, "%."),
                with_multiplier("Current: x", status.shot_speed_multiplier()),
            ),
            Upgrades::ShotFrequency => (
                String::from_str("Makes your ship shoot"),
                with_number("", SHOT_FREQUENCY_STEP / 10, "% faster."),
                with_multiplier("Current: x", status.shot_frequency_multiplier()),
            ),
            Upgrades::Hull => (
                String::from_str("Improves hull"),
                with_number("resistance by ", HULL_UPGRADE / 1000, "."),
                with_number("Current: ", status.max_health / 1000, ""),
            ),
            Upgrades::Damage => (
                String::from_str("Improves shot damage"),
                with_number("by ", DAMAGE_STEP / 10, "%."),
                with_multiplier("Current: x", status.damage_multiplier()),
            ),
            Upgrades::BouncingShots => (
                String::from_str("Make shots bounce"),
                String::from_str("against the edges"),
                String::from_str("of the screen."),
            ),
            Upgrades::PiercingShots => (
                String::from_str("Make shots go"),
                String::from_str("through multiple"),
                String::from_str("enemies."),
            ),
            Upgrades::StunShots => (
                with_number("Shots have a ", STUN_CHANCE_PERMILLE / 10, "%"),
                String::from_str("chance to mute an"),
                with_number("enemy for ", STUN_DURATION_MS / 1000, "s on hit."),
            ),
            Upgrades::LeechShots => (
                String::from_str("Repair hull by 1"),
                with_number("after killing ", LEECH_COUNT as u64, ""),
                String::from_str("enemies."),
            ),
            Upgrades::BetterShields => (
                String::from_str("Make shields last"),
                String::from_str("twice as long."),
                String::from_str(""),
            ),
            Upgrades::BetterMissiles => (
                String::from_str("Shoot two missiles"),
                String::from_str("for the price of one."),
                String::from_str(""),
            ),
            Upgrades::SideShots => (
                String::from_str("Equip your ship"),
                String::from_str("with diagonal shots."),
                String::from_str(""),
            ),
            Upgrades::Berserk => (
                String::from_str("Double damage dealt"),
                String::from_str("when hull resistance"),
                with_number("is <", BERSERK_PERCENT, "%."),
            ),
        }
    }
}

} // verus!
