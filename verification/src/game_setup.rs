//! Setting up a game: the session identifier that the host shares and that
//! other players type in to join, and the settings the host sends them.
use vstd::prelude::*;

use crate::random::RngState;

verus! {

/// Number of words of a game session identifier.
pub const GAME_SESSION_ID_WORD_LEN: usize = 2;

/// What the host sends to the players that join: the seeds of the map and
/// of the game, and the number of players.
#[derive(Copy, Clone, PartialEq, Eq, Structural, Debug, Hash)]
pub struct GameSetup {
    pub map_seed: u64,
    pub game_seed: u64,
    pub num_players: u8,
}

/// Identifier of a game session: words of a word list, written joined by
/// hyphens.
pub struct GameSessionId(pub [String; 2]);

/// Number of players of a game.
#[derive(Copy, Clone, PartialEq, Eq, Structural, Debug, Hash)]
pub struct NumPlayers(pub u8);

/// Generator of the random numbers that shape the map.
pub struct MapRng(pub RngState);

/// Generator of the random numbers of the game.
pub struct GameRng(pub RngState);

/// Characters that separate the words of a typed session identifier.
pub open spec fn spec_is_separator(c: char) -> bool {
    c == '-' || c == ' '
}

/// The pieces of `s` between separators, empty pieces included, as
/// splitting a string at every separator gives them.
pub open spec fn spec_split(s: Seq<char>) -> Seq<Seq<char>>
    decreases s.len(),
{
    if s.len() == 0 {
        seq![Seq::<char>::empty()]
    } else {
        let prev = spec_split(s.drop_last());
        if spec_is_separator(s.last()) {
            prev.push(Seq::<char>::empty())
        } else {
            prev.update(prev.len() - 1, prev.last().push(s.last()))
        }
    }
}

/// The words of a typed session identifier: the pieces that are words of
/// the word list, in order.
pub open spec fn spec_session_words(input: Seq<char>, words: Seq<Seq<char>>) -> Seq<Seq<char>> {
    spec_split(input).filter(|p: Seq<char>| words.contains(p))
}

/// The views of some strings.
pub open spec fn spec_views(words: Seq<String>) -> Seq<Seq<char>> {
    words.map_values(|w: String| w@)
}

proof fn lemma_split_len(s: Seq<char>)
    ensures
        spec_split(s).len() >= 1,
    decreases s.len(),
{
    if s.len() > 0 {
        lemma_split_len(s.drop_last());
    }
}

/// The pieces of `s` between separators.
#[verifier::spinoff_prover]
pub fn split_words(s: &str) -> (r: Vec<String>)
    ensures
        r@.map_values(|w: String| w@) == spec_split(s@),
{
    let n = s.unicode_len();
    let mut pieces: Vec<String> = Vec::new();
    let mut start: usize = 0;
    let mut i: usize = 0;
    proof {
        assert(s@.take(0) =~= Seq::<char>::empty());
        assert(spec_split(s@.take(0)) =~= seq![Seq::<char>::empty()]);
        assert(pieces@.map_values(|w: String| w@).push(s@.subrange(0, 0)) =~= seq![Seq::<char>::empty()]);
    }
    while i < n
        invariant
            n == s@.len(),
            start <= i <= n,
            spec_split(s@.take(i as int)) == pieces@.map_values(|w: String| w@).push(
                s@.subrange(start as int, i as int),
            ),
        decreases n - i,
    {
        let c = s.get_char(i);
        let ghost prev_pieces = pieces@.map_values(|w: String| w@);
        proof {
            assert(s@.take(i as int + 1).drop_last() =~= s@.take(i as int));
            assert(s@.take(i as int + 1).last() == c);
        }
        if c == '-' || c == ' ' {
            let ghost old_start = start;
            let piece = s.substring_char(start, i);
            pieces.push(String::from_str(piece));
            start = i + 1;
            proof {
                assert(pieces@.map_values(|w: String| w@) =~= prev_pieces.push(
                    s@.subrange(old_start as int, i as int),
                ));
                assert(s@.subrange(start as int, i as int + 1) =~= Seq::<char>::empty());
            }
        } else {
            proof {
                let p = prev_pieces.push(s@.subrange(start as int, i as int));
                assert(s@.subrange(start as int, i as int + 1) =~= s@.subrange(start as int, i as int).push(c));
                assert(p.update(p.len() - 1, p.last().push(c)) =~= prev_pieces.push(
                    s@.subrange(start as int, i as int + 1),
                ));
            }
        }
        i += 1;
        proof {
            assert(spec_split(s@.take(i as int)) =~= pieces@.map_values(|w: String| w@).push(
                s@.subrange(start as int, i as int),
            ));
        }
    }
    let last = s.substring_char(start, n);
    pieces.push(String::from_str(last));
    proof {
        assert(s@.take(n as int) =~= s@);
        assert(pieces@.map_values(|w: String| w@) =~= spec_split(s@));
    }
    pieces
}

/// Whether `w` is one of `words`.
fn is_word(words: &Vec<String>, w: &String) -> (r: bool)
    ensures
        r == spec_views(words@).contains(w@),
{
    let mut i: usize = 0;
    while i < words.len()
        invariant
            i <= words@.len(),
            forall|k: int| 0 <= k < i ==> (#[trigger] words@[k])@ != w@,
        decreases words@.len() - i,
    {
        if words[i].eq(w) {
            assert(spec_views(words@)[i as int] == w@);
            return true;
        }
        i += 1;
    }
    proof {
        if spec_views(words@).contains(w@) {
            let k = choose|k: int| 0 <= k < spec_views(words@).len() && spec_views(words@)[k] == w@;
            assert(words@[k]@ == w@);
        }
    }
    false
}

/// Reads a typed session identifier: its pieces between hyphens and spaces
/// that are words of the word list must be exactly two. `None` otherwise,
/// so that the player can type it again.
#[verifier::spinoff_prover]
pub fn parse_game_session_id(input: &str, words: &Vec<String>) -> (r: Option<GameSessionId>)
    ensures
        r is Some <==> spec_session_words(input@, spec_views(words@)).len() == 2,
        r matches Some(id) ==> id.0[0]@ == spec_session_words(input@, spec_views(words@))[0]
            && id.0[1]@ == spec_session_words(input@, spec_views(words@))[1],
{
    let pieces = split_words(input);
    let ghost all = spec_split(input@);
    let ghost pred = |p: Seq<char>| spec_views(words@).contains(p);
    let mut keep: Vec<String> = Vec::new();
    let mut i: usize = 0;
    proof {
        assert(pieces@.map_values(|w: String| w@).len() == pieces@.len());
        reveal_with_fuel(Seq::filter, 1);
        assert(all.take(0) =~= Seq::<Seq<char>>::empty());
        assert(keep@.map_values(|w: String| w@) =~= all.take(0).filter(pred));
    }
    while i < pieces.len()
        invariant
            i <= pieces@.len(),
            pieces@.map_values(|w: String| w@) == all,
            pred == (|p: Seq<char>| spec_views(words@).contains(p)),
            keep@.map_values(|w: String| w@) == all.take(i as int).filter(pred),
        decreases pieces@.len() - i,
    {
        let ghost prev = keep@.map_values(|w: String| w@);
        proof {
            assert(all.take(i as int + 1).drop_last() =~= all.take(i as int));
            assert(all.take(i as int + 1).last() == pieces@[i as int]@);
            reveal_with_fuel(Seq::filter, 1);
        }
        if is_word(words, &pieces[i]) {
            keep.push(pieces[i].clone());
            proof {
                assert(keep@.map_values(|w: String| w@) =~= prev.push(pieces@[i as int]@));
            }
        }
        i += 1;
    }
    proof {
        assert(all.take(pieces@.len() as int) =~= all);
        assert(keep@.map_values(|w: String| w@).len() == keep@.len());
    }
    if keep.len() != GAME_SESSION_ID_WORD_LEN {
        return None;
    }
    let ghost kv = keep@.map_values(|w: String| w@);
    let second = keep.pop().unwrap();
    let first = keep.pop().unwrap();
    proof {
        assert(kv[1] == second@);
        assert(kv[0] == first@);
    }
    Some(GameSessionId([first, second]))
}

/// The pieces of a word without separators, followed by more characters
/// without separators, continue the last piece.
proof fn lemma_split_append(prefix: Seq<char>, b: Seq<char>)
    requires
        forall|k: int| 0 <= k < b.len() ==> !spec_is_separator(#[trigger] b[k]),
    ensures
        spec_split(prefix + b) == spec_split(prefix).update(
            spec_split(prefix).len() - 1,
            spec_split(prefix).last() + b,
        ),
    decreases b.len(),
{
    lemma_split_len(prefix);
    if b.len() == 0 {
        assert(prefix + b =~= prefix);
        assert(spec_split(prefix).last() + b =~= spec_split(prefix).last());
        assert(spec_split(prefix).update(spec_split(prefix).len() - 1, spec_split(prefix).last())
            =~= spec_split(prefix));
    } else {
        let c = b.last();
        lemma_split_append(prefix, b.drop_last());
        assert((prefix + b).drop_last() =~= prefix + b.drop_last());
        assert((prefix + b).last() == c);
        let sp = spec_split(prefix);
        assert(sp.last() + b =~= (sp.last() + b.drop_last()).push(c));
        assert(spec_split(prefix + b) =~= sp.update(sp.len() - 1, sp.last() + b));
    }
}

/// The session identifier as shared: its words joined by a hyphen.
pub open spec fn spec_display(id: GameSessionId) -> Seq<char> {
    id.0[0]@ + "-"@ + id.0[1]@
}

impl GameSessionId {
    /// The session identifier as shared: its words joined by a hyphen.
    pub fn to_display_string(&self) -> (r: String)
        ensures
            r@ == spec_display(*self),
    {
        let mut r = self.0[0].clone();
        r.append("-");
        r.append(self.0[1].as_str());
        r
    }
}

/// Two words without separators, with one separator between them, read as
/// those two words.
proof fn lemma_two_words(a: Seq<char>, b: Seq<char>, sep: char, words: Seq<Seq<char>>)
    requires
        words.contains(a),
        words.contains(b),
        spec_is_separator(sep),
        forall|k: int| 0 <= k < a.len() ==> !spec_is_separator(#[trigger] a[k]),
        forall|k: int| 0 <= k < b.len() ==> !spec_is_separator(#[trigger] b[k]),
    ensures
        spec_session_words(a + seq![sep] + b, words) == seq![a, b],
{
    let e = Seq::<char>::empty();
    lemma_split_append(e, a);
    assert(e + a =~= a);
    assert(spec_split(e) =~= seq![e]);
    assert(spec_split(a) =~= seq![a]);
    let ad = a + seq![sep];
    assert(ad.drop_last() =~= a);
    assert(ad.last() == sep);
    assert(spec_split(ad) =~= seq![a, e]);
    lemma_split_append(ad, b);
    assert(spec_split(ad + b) =~= seq![a, b]);
    let pred = |p: Seq<char>| words.contains(p);
    reveal_with_fuel(Seq::filter, 3);
    assert(seq![a, b].drop_last() =~= seq![a]);
    assert(seq![a].drop_last() =~= Seq::<Seq<char>>::empty());
    assert(seq![a, b].filter(pred) =~= seq![a, b]);
}

/// A shared session identifier reads back as itself: where both of its
/// words are words of the list and hold no hyphen or space, typing it in as
/// shown, or with a space in place of the hyphen, gives the same words.
#[verifier::spinoff_prover]
pub proof fn lemma_session_id_round_trip(a: Seq<char>, b: Seq<char>, words: Seq<Seq<char>>)
    requires
        words.contains(a),
        words.contains(b),
        forall|k: int| 0 <= k < a.len() ==> !spec_is_separator(#[trigger] a[k]),
        forall|k: int| 0 <= k < b.len() ==> !spec_is_separator(#[trigger] b[k]),
    ensures
        spec_session_words(a + "-"@ + b, words) == seq![a, b],
        spec_session_words(a + " "@ + b, words) == seq![a, b],
{
    reveal_strlit("-");
    reveal_strlit(" ");
    assert("-"@ =~= seq!['-']);
    assert(" "@ =~= seq![' ']);
    lemma_two_words(a, b, '-', words);
    lemma_two_words(a, b, ' ', words);
}

/// The decimal digit `d`.
pub open spec fn spec_digit(d: int) -> char {
    seq!['0', '1', '2', '3', '4', '5', '6', '7', '8', '9'][d]
}

/// The decimal digits of `n`, most significant first, without leading zeros.
pub open spec fn spec_decimal(n: nat) -> Seq<char>
    decreases n,
{
    if n < 10 {
        seq![spec_digit(n as int)]
    } else {
        spec_decimal(n / 10).push(spec_digit((n % 10) as int))
    }
}

fn digit_str(d: u64) -> (r: &'static str)
    requires
        d < 10,
    ensures
        r@ == seq![spec_digit(d as int)],
{
    proof {
        reveal_strlit("0");
        reveal_strlit("1");
        reveal_strlit("2");
        reveal_strlit("3");
        reveal_strlit("4");
        reveal_strlit("5");
        reveal_strlit("6");
        reveal_strlit("7");
        reveal_strlit("8");
        reveal_strlit("9");
    }
    match d {
        0 => "0",
        1 => "1",
        2 => "2",
        3 => "3",
        4 => "4",
        5 => "5",
        6 => "6",
        7 => "7",
        8 => "8",
        _ => "9",
    }
}

/// Appends the decimal digits of `n` to `s`.
fn append_decimal(s: &mut String, n: u64)
    ensures
        final(s)@ == old(s)@ + spec_decimal(n as nat),
    decreases n,
{
    if n >= 10 {
        append_decimal(s, n / 10);
    }
    s.append(digit_str(n % 10));
    proof {
        if n >= 10 {
            assert(old(s)@ + spec_decimal(n as nat) =~= old(s)@ + spec_decimal((n / 10) as nat) + seq![
                spec_digit((n % 10) as int),
            ]);
        } else {
            assert(n % 10 == n);
        }
    }
}

/// The actions legend of a player who hosts a game: the session identifier
/// to share and the number of players.
pub open spec fn spec_hosting_legend(id: GameSessionId, num_players: NumPlayers) -> Seq<char> {
    "Hosting game...\nGame session ID: "@ + spec_display(id) + "\nPlayers: "@ + spec_decimal(
        num_players.0 as nat,
    ) + "\n"@
}

/// The actions legend of a player who hosts a game.
pub fn hosting_legend(id: &GameSessionId, num_players: NumPlayers) -> (r: String)
    ensures
        r@ == spec_hosting_legend(*id, num_players),
{
    let mut r = String::from_str("Hosting game...\nGame session ID: ");
    r.append(id.to_display_string().as_str());
    r.append("\nPlayers: ");
    append_decimal(&mut r, num_players.0 as u64);
    r.append("\n");
    r
}

/// Address of the room of a game session on the signaling server at `host`
/// and `port`, for the given number of players.
pub open spec fn spec_room_url(host: Seq<char>, port: Seq<char>, id: GameSessionId, num_players: NumPlayers) -> Seq<char> {
    "ws://"@ + host + ":"@ + port + "/"@ + spec_display(id) + "?next="@ + spec_decimal(
        num_players.0 as nat,
    )
}

/// Address of the room of a game session on the signaling server.
pub fn room_url(host: &str, port: &str, id: &GameSessionId, num_players: NumPlayers) -> (r: String)
    ensures
        r@ == spec_room_url(host@, port@, *id, num_players),
{
    let mut r = String::from_str("ws://");
    r.append(host);
    r.append(":");
    r.append(port);
    r.append("/");
    r.append(id.to_display_string().as_str());
    r.append("?next=");
    append_decimal(&mut r, num_players.0 as u64);
    r
}

/// Draws words for a new session identifier with `fastrand::choose_multiple`
/// from the thread-local generator. The crate's source returns `amount` of
/// the words, or all of them where there are fewer, each drawn from its own
/// place in the list, so that together they are a part of the list. Which
/// words are drawn is random and not stated.
#[verifier::external_body]
fn choose_words(words: &Vec<String>, amount: usize) -> (r: Vec<String>)
    ensures
        r@.len() == if amount <= words@.len() {
            amount as int
        } else {
            words@.len() as int
        },
        forall|k: int| 0 <= k < r@.len() ==> spec_views(words@).contains(#[trigger] r@[k]@),
        spec_views(r@).to_multiset().subset_of(spec_views(words@).to_multiset()),
{
    fastrand::choose_multiple(words.iter(), amount).into_iter().cloned().collect()
}

/// A new session identifier of words drawn from the word list.
pub fn new_game_session_id(words: &Vec<String>) -> (r: GameSessionId)
    requires
        words@.len() >= GAME_SESSION_ID_WORD_LEN,
    ensures
        spec_views(words@).contains(r.0[0]@),
        spec_views(words@).contains(r.0[1]@),
        spec_views(words@).no_duplicates() ==> r.0[0]@ != r.0[1]@,
{
    let mut chosen = choose_words(words, GAME_SESSION_ID_WORD_LEN);
    let ghost c = chosen@;
    proof {
        if spec_views(words@).no_duplicates() {
            crate::player::lemma_sub_multiset_no_duplicates(spec_views(c), spec_views(words@));
            assert(spec_views(c)[0] == c[0]@);
            assert(spec_views(c)[1] == c[1]@);
        }
    }
    let second = chosen.pop().unwrap();
    let first = chosen.pop().unwrap();
    proof {
        assert(c[1] == second);
        assert(c[0] == first);
    }
    GameSessionId([first, second])
}

} // verus!
