//! Rules of the asteroid shooter: game states, damage, kills, score and the HUD texts. Health
//! points are whole numbers (the game only ever subtracts one from whole starting values).
use vstd::prelude::*;
use vstd::string::*;
use crate::text::{decimal, push_decimal};

verus! {

/// Health of the player at the start of a game.
pub const PLAYER_HEALTH: i32 = 3;

/// Health of an enemy when it appears.
pub const ENEMY_HEALTH: i32 = 2;

/// Points for destroying an enemy.
pub const KILL_POINTS: u32 = 100;

/// Enemies in each wave.
pub const WAVE_SIZE: u32 = 4;

/// The screens of the game.
#[derive(Clone, Copy, PartialEq, Eq, Structural, Debug)]
pub enum GameState {
    Menu,
    Playing,
    GameOver,
}

/// The state after a frame on the menu: ENTER starts a game.
pub fn menu_input(state: GameState, enter_pressed: bool) -> (next: GameState)
    ensures
        next == if state == GameState::Menu && enter_pressed {
            GameState::Playing
        } else {
            state
        },
{
    if state == GameState::Menu && enter_pressed {
        GameState::Playing
    } else {
        state
    }
}

/// On the game-over screen R goes back to the menu and clears the score.
pub fn restart_input(state: GameState, score: u32, r_pressed: bool) -> (next: (GameState, u32))
    ensures
        state == GameState::GameOver && r_pressed ==> next == (GameState::Menu, 0u32),
        !(state == GameState::GameOver && r_pressed) ==> next == (state, score),
{
    if state == GameState::GameOver && r_pressed {
        (GameState::Menu, 0)
    } else {
        (state, score)
    }
}

/// Health of the enemies after the bullets of `hits[0..k]` land, each on the enemy it
/// names, if any; and the number of enemies those hits destroyed: a hit destroys its enemy
/// when it takes the enemy's health from above zero to zero or below. A bullet that lands on
/// an enemy already at zero or below is used up too, but destroys nothing more.
pub open spec fn after_hits(hp: Seq<i32>, hits: Seq<Option<usize>>, k: int) -> (Seq<i32>, int)
    decreases k,
{
    if k <= 0 {
        (hp, 0)
    } else {
        let prev = after_hits(hp, hits, k - 1);
        match hits[k - 1] {
            Some(e) => {
                let h = (prev.0[e as int] - 1) as i32;
                (
                    prev.0.update(e as int, h),
                    prev.1 + if prev.0[e as int] > 0 && h <= 0 {
                        1int
                    } else {
                        0
                    },
                )
            },
            None => prev,
        }
    }
}

proof fn lemma_after_hits_len(hp: Seq<i32>, hits: Seq<Option<usize>>, k: int)
    requires
        k <= hits.len(),
        forall|b: int| 0 <= b < hits.len() ==> (#[trigger] hits[b] matches Some(e) ==> e < hp.len()),
    ensures
        after_hits(hp, hits, k).0.len() == hp.len(),
        0 <= after_hits(hp, hits, k).1 <= if k < 0 { 0 } else { k },
    decreases k,
{
    if k > 0 {
        lemma_after_hits_len(hp, hits, k - 1);
    }
}

proof fn lemma_after_hits_lower(hp: Seq<i32>, hits: Seq<Option<usize>>, k: int, e: int)
    requires
        0 <= e < hp.len(),
        0 <= k <= hits.len(),
        forall|b: int| 0 <= b < hits.len() ==> (#[trigger] hits[b] matches Some(x) ==> x < hp.len()),
    ensures
        after_hits(hp, hits, k).0[e] >= hp[e] - k,
    decreases k,
{
    if k > 0 {
        lemma_after_hits_len(hp, hits, k - 1);
        lemma_after_hits_lower(hp, hits, k - 1, e);
    }
}

/// Number of enemies among the first `n` whose health went from above zero (`before`) to
/// zero or below (`after`).
pub open spec fn destroyed(before: Seq<i32>, after: Seq<i32>, n: int) -> int
    decreases n,
{
    if n <= 0 {
        0
    } else {
        destroyed(before, after, n - 1) + if before[n - 1] > 0 && after[n - 1] <= 0 {
            1int
        } else {
            0
        }
    }
}

proof fn lemma_destroyed_update(before: Seq<i32>, after: Seq<i32>, n: int, e: int, v: i32)
    requires
        0 <= e < after.len(),
        0 <= n <= after.len(),
    ensures
        destroyed(before, after.update(e, v), n) == destroyed(before, after, n) + if e < n {
            (if before[e] > 0 && v <= 0 { 1int } else { 0 }) - (if before[e] > 0 && after[e] <= 0 {
                1int
            } else {
                0
            })
        } else {
            0
        },
    decreases n,
{
    if n > 0 {
        lemma_destroyed_update(before, after, n - 1, e, v);
    }
}

proof fn lemma_after_hits_counts_enemies(hp: Seq<i32>, hits: Seq<Option<usize>>, k: int)
    requires
        0 <= k <= hits.len(),
        forall|b: int| 0 <= b < hits.len() ==> (#[trigger] hits[b] matches Some(e) ==> e < hp.len()),
        forall|e: int| 0 <= e < hp.len() ==> #[trigger] hp[e] >= i32::MIN + hits.len(),
    ensures
        after_hits(hp, hits, k).1 == destroyed(hp, after_hits(hp, hits, k).0, hp.len() as int),
        forall|e: int| 0 <= e < hp.len() ==> #[trigger] after_hits(hp, hits, k).0[e] <= hp[e],
    decreases k,
{
    if k == 0 {
        lemma_destroyed_zero(hp, hp.len() as int);
    } else {
        lemma_after_hits_counts_enemies(hp, hits, k - 1);
        lemma_after_hits_len(hp, hits, k - 1);
        let prev = after_hits(hp, hits, k - 1);
        match hits[k - 1] {
            Some(e) => {
                lemma_after_hits_lower(hp, hits, k - 1, e as int);
                let h = (prev.0[e as int] - 1) as i32;
                lemma_destroyed_update(hp, prev.0, hp.len() as int, e as int, h);
                assert forall|x: int| 0 <= x < hp.len() implies #[trigger] after_hits(
                    hp,
                    hits,
                    k,
                ).0[x] <= hp[x] by {
                    if x == e as int {
                        assert(prev.0[x] <= hp[x]);
                    } else {
                        assert(after_hits(hp, hits, k).0[x] == prev.0[x]);
                    }
                }
            },
            None => {},
        }
    }
}

proof fn lemma_destroyed_zero(hp: Seq<i32>, n: int)
    requires
        0 <= n <= hp.len(),
    ensures
        destroyed(hp, hp, n) == 0,
    decreases n,
{
    if n > 0 {
        lemma_destroyed_zero(hp, n - 1);
    }
}

/// Lands the bullets of one frame: a bullet that touches an enemy takes one health point off
/// the first enemy it touches (`hits` holds its index, or `None` for a miss); an enemy at zero
/// health or below is destroyed. Returns the number of enemies destroyed in this frame, each
/// counted once: those whose health was above zero before and is zero or below after.
pub fn apply_bullet_hits(enemy_hp: &mut Vec<i32>, hits: &Vec<Option<usize>>) -> (kills: u32)
    requires
        hits@.len() <= u32::MAX,
        forall|b: int|
            0 <= b < hits@.len() ==> (#[trigger] hits@[b] matches Some(e) ==> e < old(
                enemy_hp,
            )@.len()),
        forall|e: int|
            0 <= e < old(enemy_hp)@.len() ==> #[trigger] old(enemy_hp)@[e] >= i32::MIN
                + hits@.len(),
    ensures
        final(enemy_hp)@ == after_hits(old(enemy_hp)@, hits@, hits@.len() as int).0,
        kills == after_hits(old(enemy_hp)@, hits@, hits@.len() as int).1,
        kills == destroyed(old(enemy_hp)@, final(enemy_hp)@, old(enemy_hp)@.len() as int),
{
    let ghost hp0 = enemy_hp@;
    let mut kills: u32 = 0;
    let mut b: usize = 0;
    while b < hits.len()
        invariant
            hits@.len() <= u32::MAX,
            b <= hits@.len(),
            hp0.len() == enemy_hp@.len(),
            forall|x: int|
                0 <= x < hits@.len() ==> (#[trigger] hits@[x] matches Some(e) ==> e < hp0.len()),
            forall|e: int| 0 <= e < hp0.len() ==> #[trigger] hp0[e] >= i32::MIN + hits@.len(),
            (enemy_hp@, kills as int) == after_hits(hp0, hits@, b as int),
        decreases hits@.len() - b,
    {
        proof {
            lemma_after_hits_len(hp0, hits@, b as int);
        }
        match hits[b] {
            Some(e) => {
                proof {
                    lemma_after_hits_lower(hp0, hits@, b as int, e as int);
                }
                let before = enemy_hp[e];
                let h = before - 1;
                enemy_hp.set(e, h);
                if before > 0 && h <= 0 {
                    kills = kills + 1;
                }
            },
            None => {},
        }
        b = b + 1;
    }
    proof {
        lemma_after_hits_counts_enemies(hp0, hits@, hits@.len() as int);
    }
    kills
}

/// Enemies that touch the player are destroyed and each takes one health point off the
/// player; the game is over once the player's health reaches zero. Returns the new health
/// and whether the game ended.
pub fn apply_player_contacts(player_hp: i32, contacts: u32) -> (r: (i32, bool))
    requires
        player_hp as int - contacts as int >= i32::MIN,
    ensures
        r.0 == player_hp - contacts,
        r.1 == (contacts > 0 && player_hp - contacts <= 0),
{
    let mut hp = player_hp;
    let mut over = false;
    let mut k: u32 = 0;
    while k < contacts
        invariant
            k <= contacts,
            player_hp as int - contacts as int >= i32::MIN,
            hp == player_hp - k,
            over == (k > 0 && player_hp - k <= 0),
        decreases contacts - k,
    {
        hp = hp - 1;
        if hp <= 0 {
            over = true;
        }
        k = k + 1;
    }
    (hp, over)
}

/// The score after `kills` more enemies were destroyed: a hundred points each.
pub fn tally_kills(score: u32, kills: u32) -> (s: u32)
    requires
        score + KILL_POINTS * kills <= u32::MAX,
    ensures
        s == score + KILL_POINTS * kills,
{
    let mut s = score;
    let mut k: u32 = 0;
    while k < kills
        invariant
            k <= kills,
            score + KILL_POINTS * kills <= u32::MAX,
            s == score + KILL_POINTS * k,
        decreases kills - k,
    {
        s = s + KILL_POINTS;
        k = k + 1;
    }
    s
}

/// Scores are always whole multiples of the points for one kill.
pub proof fn lemma_score_in_kill_points(score: u32, kills: u32)
    requires
        score % KILL_POINTS == 0,
        score + KILL_POINTS * kills <= u32::MAX,
    ensures
        (score + KILL_POINTS * kills) % (KILL_POINTS as int) == 0,
{
    assert((score + 100 * kills) % 100 == score % 100) by (nonlinear_arith)
        requires
            score >= 0,
            kills >= 0,
    ;
}

/// `"[*]"` repeated `n` times.
pub open spec fn stars(n: nat) -> Seq<char>
    decreases n,
{
    if n == 0 {
        Seq::empty()
    } else {
        stars((n - 1) as nat) + seq!['[', '*', ']']
    }
}

/// The health display: one `[*]` per remaining point, nothing when health is gone.
pub fn health_bar(hp: i32) -> (s: String)
    ensures
        s@ == stars(if hp > 0 { hp as nat } else { 0 }),
{
    let n: i32 = if hp > 0 { hp } else { 0 };
    let mut s = String::new();
    let mut k: i32 = 0;
    while k < n
        invariant
            0 <= k <= n,
            s@ == stars(k as nat),
        decreases n - k,
    {
        s.append("[*]");
        proof {
            reveal_strlit("[*]");
        }
        k = k + 1;
        assert(s@ =~= stars(k as nat));
    }
    s
}

/// The score display.
pub fn score_text(score: u32) -> (s: String)
    ensures
        s@ == "Score: "@ + decimal(score as nat),
{
    let mut s = String::from_str("Score: ");
    push_decimal(&mut s, score as u64);
    s
}

} // verus!
