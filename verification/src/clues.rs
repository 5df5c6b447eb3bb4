//! Scoring a guess against a secret code.
//!
//! Each position of the guess yields at most one signal: `Fermi` when the
//! character matches the secret at that position, `Pico` when it occurs in
//! the secret elsewhere, nothing otherwise.  The displayed clue string lists
//! the emitted labels in lexicographic order (every `Fermi` before every
//! `Pico`, since `'F' < 'P'`) joined by single spaces, or the single token
//! `Bagels` when nothing was emitted.

use vstd::prelude::*;
use vstd::string::StrSliceExecFns;
use vstd::string::StringExecFns;

verus! {

/// Number of positions both sequences share.
pub open spec fn min_len(g: Seq<char>, s: Seq<char>) -> nat {
    if g.len() <= s.len() {
        g.len()
    } else {
        s.len()
    }
}

/// Position `i` scores a `Fermi`: right character, right place.
pub open spec fn is_fermi(g: Seq<char>, s: Seq<char>, i: int) -> bool {
    g[i] == s[i]
}

/// Position `i` scores a `Pico`: the guessed character occurs in the secret,
/// but not at this position.
pub open spec fn is_pico(g: Seq<char>, s: Seq<char>, i: int) -> bool {
    g[i] != s[i] && s.contains(g[i])
}

/// How many of the first `n` positions score a `Fermi`.
pub open spec fn fermi_count_upto(g: Seq<char>, s: Seq<char>, n: int) -> nat
    decreases n,
{
    if n <= 0 {
        0
    } else {
        fermi_count_upto(g, s, n - 1) + (if is_fermi(g, s, n - 1) {
            1nat
        } else {
            0nat
        })
    }
}

/// How many of the first `n` positions score a `Pico`.
pub open spec fn pico_count_upto(g: Seq<char>, s: Seq<char>, n: int) -> nat
    decreases n,
{
    if n <= 0 {
        0
    } else {
        pico_count_upto(g, s, n - 1) + (if is_pico(g, s, n - 1) {
            1nat
        } else {
            0nat
        })
    }
}

/// `Fermi` signals scored by `g` against `s`.
pub open spec fn fermi_count(g: Seq<char>, s: Seq<char>) -> nat {
    fermi_count_upto(g, s, min_len(g, s) as int)
}

/// `Pico` signals scored by `g` against `s`.
pub open spec fn pico_count(g: Seq<char>, s: Seq<char>) -> nat {
    pico_count_upto(g, s, min_len(g, s) as int)
}

pub proof fn lemma_fermi_upto_le(g: Seq<char>, s: Seq<char>, n: int)
    requires
        n >= 0,
    ensures
        fermi_count_upto(g, s, n) <= n,
    decreases n,
{
    if n > 0 {
        lemma_fermi_upto_le(g, s, n - 1);
    }
}

pub proof fn lemma_pico_upto_le(g: Seq<char>, s: Seq<char>, n: int)
    requires
        n >= 0,
    ensures
        pico_count_upto(g, s, n) <= n,
    decreases n,
{
    if n > 0 {
        lemma_pico_upto_le(g, s, n - 1);
    }
}

/// No `Fermi` among the first `n` positions means none scores one.
pub proof fn lemma_fermi_upto_zero(g: Seq<char>, s: Seq<char>, n: int)
    requires
        n >= 0,
    ensures
        (fermi_count_upto(g, s, n) == 0) <==> (forall|i: int| 0 <= i < n ==> !is_fermi(g, s, i)),
    decreases n,
{
    if n > 0 {
        lemma_fermi_upto_zero(g, s, n - 1);
    }
}

/// No `Pico` among the first `n` positions means none scores one.
pub proof fn lemma_pico_upto_zero(g: Seq<char>, s: Seq<char>, n: int)
    requires
        n >= 0,
    ensures
        (pico_count_upto(g, s, n) == 0) <==> (forall|i: int| 0 <= i < n ==> !is_pico(g, s, i)),
    decreases n,
{
    if n > 0 {
        lemma_pico_upto_zero(g, s, n - 1);
    }
}

/// The `Fermi` count reaches `n` exactly when every position scores one.
pub proof fn lemma_fermi_upto_all(g: Seq<char>, s: Seq<char>, n: int)
    requires
        n >= 0,
    ensures
        (fermi_count_upto(g, s, n) == n) <==> (forall|i: int| 0 <= i < n ==> is_fermi(g, s, i)),
    decreases n,
{
    if n > 0 {
        lemma_fermi_upto_all(g, s, n - 1);
        lemma_fermi_upto_le(g, s, n - 1);
    }
}

/// The `Pico` count reaches `n` exactly when every position scores one.
pub proof fn lemma_pico_upto_all(g: Seq<char>, s: Seq<char>, n: int)
    requires
        n >= 0,
    ensures
        (pico_count_upto(g, s, n) == n) <==> (forall|i: int| 0 <= i < n ==> is_pico(g, s, i)),
    decreases n,
{
    if n > 0 {
        lemma_pico_upto_all(g, s, n - 1);
        lemma_pico_upto_le(g, s, n - 1);
    }
}

/// The signals scored by one guess against one secret: a multiset over the
/// two-label alphabet, kept as one count per label.
#[derive(Clone, Copy, Debug, PartialEq, Eq, Structural)]
pub struct ClueSet {
    pub fermis: usize,
    pub picos: usize,
}

/// Does `c` occur anywhere in `s`?
fn str_contains_char(s: &str, c: char) -> (r: bool)
    ensures
        r == s@.contains(c),
{
    let len: usize = s.unicode_len();
    let mut j: usize = 0;
    while j < len
        invariant
            j <= len,
            len == s@.len(),
            forall|k: int| 0 <= k < j ==> s@[k] != c,
        decreases len - j,
    {
        if s.get_char(j) == c {
            assert(s@[j as int] == c);
            return true;
        }
        j += 1;
    }
    false
}

/// Score a guess against a secret, one signal per guess position.
pub fn score(guess: &str, secret: &str) -> (c: ClueSet)
    ensures
        c.fermis == fermi_count(guess@, secret@),
        c.picos == pico_count(guess@, secret@),
{
    let glen: usize = guess.unicode_len();
    let slen: usize = secret.unicode_len();
    let n: usize = if glen <= slen {
        glen
    } else {
        slen
    };
    let mut fermis: usize = 0;
    let mut picos: usize = 0;
    let mut i: usize = 0;
    while i < n
        invariant
            i <= n,
            n == min_len(guess@, secret@),
            guess@.len() >= n,
            secret@.len() >= n,
            fermis == fermi_count_upto(guess@, secret@, i as int),
            picos == pico_count_upto(guess@, secret@, i as int),
            fermis <= i,
            picos <= i,
        decreases n - i,
    {
        let g = guess.get_char(i);
        let s = secret.get_char(i);
        if g == s {
            fermis += 1;
        } else if str_contains_char(secret, g) {
            picos += 1;
        }
        i += 1;
    }
    ClueSet { fermis, picos }
}

/// The clue labels emitted for `f` `Fermi` and `p` `Pico` signals, in
/// lexicographic order, joined by single spaces.
pub open spec fn clue_body(f: nat, p: nat) -> Seq<char>
    decreases f + p,
{
    if f > 0 {
        if f + p > 1 {
            "Fermi"@ + " "@ + clue_body((f - 1) as nat, p)
        } else {
            "Fermi"@
        }
    } else if p > 0 {
        if p > 1 {
            "Pico"@ + " "@ + clue_body(0, (p - 1) as nat)
        } else {
            "Pico"@
        }
    } else {
        Seq::<char>::empty()
    }
}

/// The full clue string: the joined labels, or `Bagels` when none was emitted.
pub open spec fn clue_text_spec(f: nat, p: nat) -> Seq<char> {
    if f == 0 && p == 0 {
        "Bagels"@
    } else {
        clue_body(f, p)
    }
}

/// Format a clue set for display.
pub fn clue_text(c: ClueSet) -> (r: String)
    ensures
        r@ == clue_text_spec(c.fermis as nat, c.picos as nat),
{
    if c.fermis == 0 && c.picos == 0 {
        return String::from_str("Bagels");
    }
    let f: usize = c.fermis;
    let p: usize = c.picos;
    let mut out = String::new();
    let mut i: usize = 0;
    while i < f
        invariant
            i <= f,
            f == c.fermis,
            p == c.picos,
            f + p > 0,
            i == 0 ==> out@ == Seq::<char>::empty(),
            i > 0 && (f - i) + p > 0 ==> out@ + " "@ + clue_body((f - i) as nat, p as nat)
                == clue_body(f as nat, p as nat),
            i > 0 && (f - i) + p == 0 ==> out@ == clue_body(f as nat, p as nat),
        decreases f - i,
    {
        proof {
            lemma_clue_step_fermi(out@, f as nat, p as nat, i as nat);
        }
        if i > 0 {
            out.append(" ");
        }
        out.append("Fermi");
        i += 1;
    }
    let mut j: usize = 0;
    while j < p
        invariant
            j <= p,
            f == c.fermis,
            p == c.picos,
            f + p > 0,
            f + j == 0 ==> out@ == Seq::<char>::empty(),
            f + j > 0 && p - j > 0 ==> out@ + " "@ + clue_body(0, (p - j) as nat)
                == clue_body(f as nat, p as nat),
            f + j > 0 && p - j == 0 ==> out@ == clue_body(f as nat, p as nat),
        decreases p - j,
    {
        proof {
            lemma_clue_step_pico(out@, f as nat, p as nat, j as nat);
        }
        if f > 0 || j > 0 {
            out.append(" ");
        }
        out.append("Pico");
        j += 1;
    }
    out
}

/// Appending the next `Fermi` label (with its separator when `out` is not the
/// first token) keeps the accumulated prefix aligned with `clue_body`.
proof fn lemma_clue_step_fermi(out: Seq<char>, f: nat, p: nat, i: nat)
    requires
        i < f,
        i == 0 ==> out == Seq::<char>::empty(),
        i > 0 && (f - i) + p > 0 ==> out + " "@ + clue_body((f - i) as nat, p) == clue_body(f, p),
    ensures
        ({
            let out2 = if i == 0 {
                out + "Fermi"@
            } else {
                out + " "@ + "Fermi"@
            };
            &&& (f - i - 1) + p > 0 ==> out2 + " "@ + clue_body((f - i - 1) as nat, p)
                == clue_body(f, p)
            &&& (f - i - 1) + p == 0 ==> out2 == clue_body(f, p)
        }),
{
    let rem: nat = (f - i) as nat;
    let out2 = if i == 0 {
        out + "Fermi"@
    } else {
        out + " "@ + "Fermi"@
    };
    if rem + p > 1 {
        assert(clue_body(rem, p) == "Fermi"@ + " "@ + clue_body((rem - 1) as nat, p));
        if i == 0 {
            assert(out2 + " "@ + clue_body((rem - 1) as nat, p) == clue_body(f, p)) by {
                assert(out2 + " "@ + clue_body((rem - 1) as nat, p) =~= out + clue_body(rem, p));
                assert(out + clue_body(rem, p) =~= clue_body(f, p));
            }
        } else {
            assert(out2 + " "@ + clue_body((rem - 1) as nat, p) == clue_body(f, p)) by {
                assert(out2 + " "@ + clue_body((rem - 1) as nat, p) =~= out + " "@ + clue_body(
                    rem,
                    p,
                ));
            }
        }
    } else {
        assert(rem == f - i);
        assert(rem + p == 1);
        assert(clue_body(rem, p) == "Fermi"@);
        if i == 0 {
            assert(out2 =~= clue_body(f, p));
        } else {
            assert(out2 =~= out + " "@ + clue_body(rem, p));
        }
    }
}

/// Appending the next `Pico` label keeps the accumulated prefix aligned with
/// `clue_body`.
proof fn lemma_clue_step_pico(out: Seq<char>, f: nat, p: nat, j: nat)
    requires
        j < p,
        f + j == 0 ==> out == Seq::<char>::empty(),
        f + j > 0 && p - j > 0 ==> out + " "@ + clue_body(0, (p - j) as nat) == clue_body(f, p),
    ensures
        ({
            let out2 = if f + j == 0 {
                out + "Pico"@
            } else {
                out + " "@ + "Pico"@
            };
            &&& p - j - 1 > 0 ==> out2 + " "@ + clue_body(0, (p - j - 1) as nat) == clue_body(f, p)
            &&& p - j - 1 == 0 ==> out2 == clue_body(f, p)
        }),
{
    let rem: nat = (p - j) as nat;
    let out2 = if f + j == 0 {
        out + "Pico"@
    } else {
        out + " "@ + "Pico"@
    };
    if rem > 1 {
        assert(clue_body(0, rem) == "Pico"@ + " "@ + clue_body(0, (rem - 1) as nat));
        if f + j == 0 {
            assert(f == 0 && j == 0 && rem == p);
            assert(out2 + " "@ + clue_body(0, (rem - 1) as nat) == clue_body(f, p)) by {
                assert(out2 + " "@ + clue_body(0, (rem - 1) as nat) =~= clue_body(0, rem));
            }
        } else {
            assert(out2 + " "@ + clue_body(0, (rem - 1) as nat) == clue_body(f, p)) by {
                assert(out2 + " "@ + clue_body(0, (rem - 1) as nat) =~= out + " "@ + clue_body(
                    0,
                    rem,
                ));
            }
        }
    } else {
        assert(rem == 1);
        assert(clue_body(0, rem) == "Pico"@);
        if f + j == 0 {
            assert(f == 0 && j == 0 && p == 1);
            assert(out2 =~= clue_body(f, p));
        } else {
            assert(out2 =~= out + " "@ + clue_body(0, rem));
        }
    }
}

/// Scoring a code against itself yields one `Fermi` per position and no
/// `Pico`: the all-`Fermi` clue set.
pub proof fn lemma_score_self(s: Seq<char>)
    ensures
        fermi_count(s, s) == s.len(),
        pico_count(s, s) == 0,
        clue_text_spec(fermi_count(s, s), pico_count(s, s)) == clue_text_spec(s.len(), 0),
{
    let n = s.len() as int;
    lemma_fermi_upto_all(s, s, n);
    lemma_pico_upto_zero(s, s, n);
}

/// When `f + p > 0` the clue string opens with a label, so its first
/// character is `'F'` or `'P'`.
proof fn lemma_clue_body_first(f: nat, p: nat)
    requires
        f + p > 0,
    ensures
        clue_body(f, p).len() > 0,
        clue_body(f, p)[0] == 'F' || clue_body(f, p)[0] == 'P',
{
    reveal_strlit("Fermi");
    reveal_strlit("Pico");
    reveal_strlit(" ");
    if f > 0 {
        if f + p > 1 {
            assert(clue_body(f, p) == "Fermi"@ + " "@ + clue_body((f - 1) as nat, p));
            assert(clue_body(f, p)[0] == "Fermi"@[0]);
        }
        assert(clue_body(f, p)[0] == 'F');
    } else {
        if p > 1 {
            assert(clue_body(f, p) == "Pico"@ + " "@ + clue_body(0, (p - 1) as nat));
            assert(clue_body(f, p)[0] == "Pico"@[0]);
        }
        assert(clue_body(f, p)[0] == 'P');
    }
}

/// The clue string is exactly `Bagels` when, and only when, no guessed
/// character occurs anywhere in the secret.
pub proof fn lemma_bagels_iff(g: Seq<char>, s: Seq<char>)
    requires
        g.len() == s.len(),
    ensures
        (clue_text_spec(fermi_count(g, s), pico_count(g, s)) == "Bagels"@) <==> (forall|i: int|
            0 <= i < g.len() ==> !s.contains(g[i])),
{
    let n = g.len() as int;
    lemma_fermi_upto_zero(g, s, n);
    lemma_pico_upto_zero(g, s, n);
    if forall|i: int| 0 <= i < g.len() ==> !s.contains(g[i]) {
        assert forall|i: int| 0 <= i < n implies !is_fermi(g, s, i) by {
            if g[i] == s[i] {
                assert(s.contains(g[i]));
            }
        }
        assert(fermi_count(g, s) == 0);
        assert(pico_count(g, s) == 0);
    } else {
        let i = choose|i: int| 0 <= i < g.len() && s.contains(g[i]);
        if g[i] == s[i] {
            assert(is_fermi(g, s, i));
            assert(fermi_count(g, s) != 0);
        } else {
            assert(is_pico(g, s, i));
            assert(pico_count(g, s) != 0);
        }
        let f = fermi_count(g, s);
        let p = pico_count(g, s);
        lemma_clue_body_first(f, p);
        reveal_strlit("Bagels");
        assert(clue_body(f, p) != "Bagels"@) by {
            assert("Bagels"@[0] == 'B');
        }
    }
}

/// A guess that permutes the secret's characters and matches it at no
/// position scores `Pico` at every position: the all-`Pico` clue set.
pub proof fn lemma_permutation_all_pico(g: Seq<char>, s: Seq<char>)
    requires
        g.to_multiset() == s.to_multiset(),
        forall|i: int| 0 <= i < g.len() ==> g[i] != s[i],
    ensures
        g.len() == s.len(),
        fermi_count(g, s) == 0,
        pico_count(g, s) == g.len(),
{
    broadcast use vstd::seq_lib::group_to_multiset_ensures;

    assert(g.len() == g.to_multiset().len());
    assert(s.len() == s.to_multiset().len());
    let n = g.len() as int;
    assert forall|i: int| 0 <= i < n implies is_pico(g, s, i) by {
        assert(g.contains(g[i]));
        assert(g.to_multiset().count(g[i]) > 0);
        assert(s.contains(g[i]));
    }
    lemma_pico_upto_all(g, s, n);
    lemma_fermi_upto_zero(g, s, n);
}

/// Score a guess against a secret and format the result, exactly as the game
/// shows it to the player.
pub fn get_clues(guess: &str, secret_number: &str) -> (r: String)
    ensures
        r@ == clue_text_spec(
            fermi_count(guess@, secret_number@),
            pico_count(guess@, secret_number@),
        ),
{
    let c = score(guess, secret_number);
    clue_text(c)
}

} // verus!
