use vstd::prelude::*;
use vstd::std_specs::iter::IteratorSpec;
use vstd::string::*;

verus! {

/// How often each word occurs.
#[derive(Debug)]
pub struct Index {
    pub frequency_map: Vec<(String, u32)>,
}

/// A list of strings.
#[derive(Debug)]
pub struct VecStringContainer {
    pub data: Vec<String>,
}

/// Whether the word `a` comes before the word `b` in the order of the
/// dictionary, looked at from index `i` on: the first character in which
/// they differ decides, and a word comes before those that it begins.
pub open spec fn word_before(a: Seq<char>, b: Seq<char>, i: int) -> bool
    decreases b.len() - i,
{
    if i < 0 || i >= b.len() {
        false
    } else if i >= a.len() {
        true
    } else if a[i] != b[i] {
        a[i] < b[i]
    } else {
        word_before(a, b, i + 1)
    }
}

/// Whether the entry `x` ranks below the entry `y`: by the frequency, and
/// among entries of one frequency by the word.
pub open spec fn ranks_below(x: (Seq<char>, u32), y: (Seq<char>, u32)) -> bool {
    x.1 < y.1 || (x.1 == y.1 && word_before(x.0, y.0, 0))
}

/// The index of the entry that ranks highest among the first `n`.
pub open spec fn highest(entries: Seq<(Seq<char>, u32)>, n: int) -> int
    decreases n,
{
    if n <= 1 || n > entries.len() {
        0
    } else if ranks_below(entries[highest(entries, n - 1)], entries[n - 1]) {
        n - 1
    } else {
        highest(entries, n - 1)
    }
}

/// The words of the `n` entries that rank highest, from the highest down;
/// all words where there are fewer than `n` entries.
pub open spec fn top_words(entries: Seq<(Seq<char>, u32)>, n: nat) -> Seq<Seq<char>>
    decreases n,
{
    if n == 0 || entries.len() == 0 {
        Seq::empty()
    } else {
        let first = highest(entries, entries.len() as int);
        seq![entries[first].0] + top_words(entries.remove(first), (n - 1) as nat)
    }
}

/// What a list of entries holds.
pub open spec fn entry_views(entries: Seq<(String, u32)>) -> Seq<(Seq<char>, u32)> {
    entries.map_values(|e: (String, u32)| (e.0@, e.1))
}

/// The characters of a list of words.
pub open spec fn word_views(words: Seq<String>) -> Seq<Seq<char>> {
    words.map_values(|w: String| w@)
}

fn chars_of(text: &str) -> (chars: Vec<char>)
    ensures
        chars@ == text@,
{
    let mut chars: Vec<char> = Vec::new();
    for c in it: text.chars()
        invariant
            it.seq() == text@,
            chars@ == text@.take(it.index() as int),
    {
        chars.push(c);
        proof {
            assert(text@.take(it.index() + 1) =~= text@.take(it.index() as int).push(c));
        }
    }
    proof {
        assert(text@.take(text@.len() as int) =~= text@);
    }
    chars
}

/// Whether the word `a` comes before the word `b`.
pub fn comes_before(a: &str, b: &str) -> (before: bool)
    ensures
        before == word_before(a@, b@, 0),
{
    let x = chars_of(a);
    let y = chars_of(b);
    let mut i: usize = 0;
    loop
        invariant
            x@ == a@,
            y@ == b@,
            i <= x@.len(),
            i <= y@.len(),
            word_before(a@, b@, 0) == word_before(a@, b@, i as int),
        decreases y@.len() - i,
    {
        if i >= y.len() {
            return false;
        }
        if i >= x.len() {
            return true;
        }
        if x[i] != y[i] {
            return x[i] < y[i];
        }
        i += 1;
    }
}

/// The index of the entry that ranks highest.
fn find_highest(entries: &Vec<(String, u32)>) -> (found: usize)
    requires
        entries@.len() > 0,
    ensures
        found == highest(entry_views(entries@), entries@.len() as int),
        found < entries@.len(),
{
    let ghost views = entry_views(entries@);
    let mut best: usize = 0;
    let mut n: usize = 1;
    while n < entries.len()
        invariant
            views == entry_views(entries@),
            1 <= n <= entries@.len(),
            best < n,
            best == highest(views, n as int),
        decreases entries@.len() - n,
    {
        let top = &entries[best];
        let next = &entries[n];
        assert(views[best as int] == (top.0@, top.1));
        assert(views[n as int] == (next.0@, next.1));
        let below = top.1 < next.1 || (top.1 == next.1 && comes_before(
            top.0.as_str(),
            next.0.as_str(),
        ));
        if below {
            best = n;
        }
        n += 1;
    }
    best
}

/// The `n` most frequent words of the index, the most frequent first.
/// Among words of one frequency the later in the order of the dictionary
/// goes first.
pub fn top_frequent(index: Index, n: usize) -> (top: VecStringContainer)
    ensures
        word_views(top.data@) == top_words(entry_views(index.frequency_map@), n as nat),
{
    let ghost all = entry_views(index.frequency_map@);
    let mut entries = index.frequency_map;
    let mut result: Vec<String> = Vec::new();
    let mut k: usize = 0;
    proof {
        assert(word_views(result@) + top_words(all, n as nat) =~= top_words(all, n as nat));
    }
    while k < n && entries.len() > 0
        invariant
            k <= n,
            word_views(result@) + top_words(entry_views(entries@), (n - k) as nat) == top_words(
                all,
                n as nat,
            ),
        decreases n - k,
    {
        let ghost before = entry_views(entries@);
        let ghost words = word_views(result@);
        let first = find_highest(&entries);
        let (word, _) = entries.remove(first);
        proof {
            assert(entry_views(entries@) =~= before.remove(first as int));
            assert(before[first as int].0 == word@);
        }
        result.push(word);
        k += 1;
        proof {
            assert(word_views(result@) =~= words.push(word@));
            assert(words.push(word@) + top_words(entry_views(entries@), (n - k) as nat)
                =~= words + top_words(before, (n - k + 1) as nat));
        }
    }
    proof {
        assert(top_words(entry_views(entries@), (n - k) as nat) =~= Seq::<Seq<char>>::empty());
        assert(word_views(result@) =~= top_words(all, n as nat));
    }
    VecStringContainer { data: result }
}

} // verus!
