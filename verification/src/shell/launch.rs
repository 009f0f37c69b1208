//! The command line of the editor.

use vstd::prelude::*;

verus! {

/// The scene to play at once, read from the words from position `i` on: the word
/// behind the last `--play`, if there is one behind it.
pub open spec fn play_argument(
    words: Seq<Seq<char>>,
    i: int,
    found: Option<Seq<char>>,
) -> Option<Seq<char>>
    decreases words.len() - i,
{
    if i < 0 || i >= words.len() {
        found
    } else if words[i] == "--play"@ {
        if i + 1 < words.len() {
            play_argument(words, i + 2, Some(words[i + 1]))
        } else {
            None
        }
    } else {
        play_argument(words, i + 1, found)
    }
}

/// The scene to play at once, if the command line asks for one.
pub fn launch_scene(args: &Vec<String>) -> (r: Option<String>)
    ensures
        play_argument(crate::text::texts(args@), 1, None) == match r {
            Some(s) => Some(s@),
            None => None,
        },
{
    let ghost words = crate::text::texts(args@);
    let mut play: Option<String> = None;
    let mut i: usize = 1;
    while i < args.len()
        invariant
            1 <= i <= args@.len() + 1 || args@.len() == 0,
            words == crate::text::texts(args@),
            play_argument(words, 1, None) == play_argument(
                words,
                i as int,
                match play {
                    Some(s) => Some(s@),
                    None => None,
                },
            ),
        decreases args@.len() - i,
    {
        assert(words[i as int] == args@[i as int]@);
        if crate::text::same(args[i].as_str(), "--play") {
            if i + 1 >= args.len() {
                return None;
            }
            assert(words[i + 1] == args@[i + 1]@);
            play = Some(args[i + 1].clone());
            i = i + 1;
        }
        i = i + 1;
    }
    play
}

/// A command line without `--play` behind the program's name asks for no scene.
pub proof fn law_no_scene(words: Seq<Seq<char>>, i: int)
    requires
        0 <= i,
        forall|k: int| i <= k < words.len() ==> words[k] != "--play"@,
    ensures
        play_argument(words, i, None) is None,
    decreases words.len() - i,
{
    lemma_no_more(words, i, None);
}

proof fn lemma_no_more(words: Seq<Seq<char>>, i: int, found: Option<Seq<char>>)
    requires
        0 <= i,
        forall|k: int| i <= k < words.len() ==> words[k] != "--play"@,
    ensures
        play_argument(words, i, found) == found,
    decreases words.len() - i,
{
    if i < words.len() {
        lemma_no_more(words, i + 1, found);
    }
}

proof fn lemma_up_to(words: Seq<Seq<char>>, i: int, n: int, found: Option<Seq<char>>)
    requires
        0 <= i <= n <= words.len(),
        forall|k: int| i <= k < n ==> words[k] != "--play"@,
    ensures
        play_argument(words, i, found) == play_argument(words, n, found),
    decreases n - i,
{
    if i < n {
        lemma_up_to(words, i + 1, n, found);
    }
}

/// The word behind `--play` is the scene, wherever on the command line the two
/// stand; nothing is asked for where no word is behind it.
pub proof fn law_scene_behind_play(before: Seq<Seq<char>>, scene: Seq<char>, behind: Seq<Seq<char>>)
    requires
        before.len() > 0,
        forall|k: int| 1 <= k < before.len() ==> before[k] != "--play"@,
        forall|k: int| 0 <= k < behind.len() ==> behind[k] != "--play"@,
    ensures
        play_argument(before + seq!["--play"@, scene] + behind, 1, None) == Some(scene),
        play_argument(before + seq!["--play"@], 1, None) is None,
{
    let n = before.len() as int;
    let all = before + seq!["--play"@, scene] + behind;
    assert forall|k: int| 1 <= k < n implies all[k] != "--play"@ by {
        assert(all[k] == before[k]);
    }
    lemma_up_to(all, 1, n, None);
    assert(all[n] == "--play"@ && all[n + 1] == scene);
    assert forall|k: int| n + 2 <= k < all.len() implies all[k] != "--play"@ by {
        assert(all[k] == behind[k - n - 2]);
    }
    lemma_no_more(all, n + 2, Some(scene));
    let short = before + seq!["--play"@];
    assert forall|k: int| 1 <= k < n implies short[k] != "--play"@ by {
        assert(short[k] == before[k]);
    }
    lemma_up_to(short, 1, n, None);
    assert(short[n] == "--play"@);
}

/// Of two scenes asked for, the last is played.
pub proof fn law_last_scene(
    before: Seq<Seq<char>>,
    first: Seq<char>,
    between: Seq<Seq<char>>,
    last: Seq<char>,
)
    requires
        before.len() > 0,
        forall|k: int| 1 <= k < before.len() ==> before[k] != "--play"@,
        forall|k: int| 0 <= k < between.len() ==> between[k] != "--play"@,
    ensures
        play_argument(
            before + seq!["--play"@, first] + between + seq!["--play"@, last],
            1,
            None,
        ) == Some(last),
{
    let n = before.len() as int;
    let m = n + 2 + between.len();
    let all = before + seq!["--play"@, first] + between + seq!["--play"@, last];
    assert forall|k: int| 1 <= k < n implies all[k] != "--play"@ by {
        assert(all[k] == before[k]);
    }
    lemma_up_to(all, 1, n, None);
    assert(all[n] == "--play"@ && all[n + 1] == first);
    assert forall|k: int| n + 2 <= k < m implies all[k] != "--play"@ by {
        assert(all[k] == between[k - n - 2]);
    }
    lemma_up_to(all, n + 2, m, Some(first));
    assert(all[m] == "--play"@ && all[m + 1] == last);
    lemma_no_more(all, m + 2, Some(last));
}

} // verus!
