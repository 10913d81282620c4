//! A deterministic "remove this word no matter what" filter, run on every raw
//! transcript right after speech-to-text and before any cleanup pass sees the
//! text. A plain word list is used rather than the cleanup model, so the
//! removal neither depends on a model nor can delete a similar-sounding word.
use vstd::prelude::*;
use crate::text::{
    all_ascii, ascii_lower, char_is_alphanumeric, chars_of, is_alphanumeric, is_ascii_char, is_whitespace,
    char_is_whitespace, str_to_lowercase, string_from_chars, string_push, to_lowercase, trim, trim_chars,
    trim_end, trim_start, trim_str, unicode_alphanumeric, lemma_trim_shape,
};

verus! {

/// The built-in default words: common English profanity, short on purpose.
/// Users extend it with their own words through `Blocklist::new`.
pub open spec fn default_words() -> Seq<Seq<char>> {
    seq!["fuck"@, "fucking"@, "shit"@, "bitch"@, "asshole"@, "bastard"@]
}

proof fn lemma_default_words_are_lowercase_ascii()
    ensures
        forall|i: int|
            0 <= i < default_words().len() ==> all_ascii(#[trigger] default_words()[i])
                && default_words()[i].map_values(|c: char| ascii_lower(c)) == default_words()[i]
                && default_words()[i].len() > 0,
{
    reveal_strlit("fuck");
    reveal_strlit("fucking");
    reveal_strlit("shit");
    reveal_strlit("bitch");
    reveal_strlit("asshole");
    reveal_strlit("bastard");
    assert forall|i: int| 0 <= i < default_words().len() implies all_ascii(
        #[trigger] default_words()[i],
    ) && default_words()[i].map_values(|c: char| ascii_lower(c)) == default_words()[i]
        && default_words()[i].len() > 0 by {
        let w = default_words()[i];
        assert(w.map_values(|c: char| ascii_lower(c)) =~= w);
    }
}

fn default_word_list() -> (v: Vec<&'static str>)
    ensures
        v@.len() == default_words().len(),
        forall|i: int| 0 <= i < v@.len() ==> (#[trigger] v@[i])@ == default_words()[i],
{
    let v = vec!["fuck", "fucking", "shit", "bitch", "asshole", "bastard"];
    v
}

/// A character that belongs to a word: alphanumeric, or an apostrophe so that
/// contractions such as "don't" stay one word.
pub open spec fn is_word_char(c: char) -> bool {
    is_alphanumeric(c) || c == '\''
}

/// The words a blocklist made from `custom` removes: the lowercased defaults
/// and the trimmed, lowercased custom words, never the empty word.
pub open spec fn blocklist_words(custom: Seq<Seq<char>>) -> Set<Seq<char>> {
    Set::new(
        |w: Seq<char>|
            w.len() > 0 && ((exists|i: int|
                0 <= i < default_words().len() && w == to_lowercase(#[trigger] default_words()[i]))
                || (exists|i: int| 0 <= i < custom.len() && w == to_lowercase(trim(#[trigger] custom[i])))),
    )
}

/// The same words as the original list states them: the default words, and
/// each custom word that is not blank after trimming, trimmed and lowercased.
pub open spec fn listed_words(custom: Seq<Seq<char>>) -> Set<Seq<char>> {
    Set::new(
        |w: Seq<char>|
            (exists|i: int| 0 <= i < default_words().len() && w == #[trigger] default_words()[i])
                || (exists|i: int|
                0 <= i < custom.len() && trim(#[trigger] custom[i]).len() > 0 && w == to_lowercase(
                    trim(custom[i]),
                )),
    )
}

/// `text` split into maximal runs of word characters and of other characters;
/// each run is paired with whether it is a word.
pub open spec fn tokens(s: Seq<char>) -> Seq<(bool, Seq<char>)>
    decreases s.len(),
{
    if s.len() == 0 {
        seq![]
    } else {
        let prev = tokens(s.drop_last());
        let c = s.last();
        let k = is_word_char(c);
        if prev.len() > 0 && prev.last().0 == k {
            prev.update(prev.len() - 1, (k, prev.last().1.push(c)))
        } else {
            prev.push((k, seq![c]))
        }
    }
}

/// The tokens that survive the blocklist: every non-word run, and every word
/// whose lowercase form is not blocklisted.
pub open spec fn unblocked(words: Set<Seq<char>>, toks: Seq<(bool, Seq<char>)>) -> Seq<
    (bool, Seq<char>),
>
    decreases toks.len(),
{
    if toks.len() == 0 {
        seq![]
    } else {
        let prev = unblocked(words, toks.drop_last());
        let t = toks.last();
        if t.0 && words.contains(to_lowercase(t.1)) {
            prev
        } else {
            prev.push(t)
        }
    }
}

/// The tokens' texts, concatenated.
pub open spec fn concat_tokens(toks: Seq<(bool, Seq<char>)>) -> Seq<char>
    decreases toks.len(),
{
    if toks.len() == 0 {
        seq![]
    } else {
        concat_tokens(toks.drop_last()) + toks.last().1
    }
}

/// The maximal runs of non-whitespace characters of `s` (`str::split_whitespace`).
pub open spec fn ws_words(s: Seq<char>) -> Seq<Seq<char>>
    decreases s.len(),
{
    if s.len() == 0 {
        seq![]
    } else {
        let prev = ws_words(s.drop_last());
        let c = s.last();
        if is_whitespace(c) {
            prev
        } else if s.len() >= 2 && !is_whitespace(s[s.len() - 2]) {
            prev.update(prev.len() - 1, prev.last().push(c))
        } else {
            prev.push(seq![c])
        }
    }
}

/// The words joined by single spaces.
pub open spec fn join_space(ws: Seq<Seq<char>>) -> Seq<char>
    decreases ws.len(),
{
    if ws.len() == 0 {
        seq![]
    } else if ws.len() == 1 {
        ws[0]
    } else {
        join_space(ws.drop_last()) + seq![' '] + ws.last()
    }
}

/// The punctuation before which spaces are dropped and which is not doubled.
pub open spec fn is_closing_punct(c: char) -> bool {
    c == ',' || c == '.' || c == '!' || c == '?' || c == ';' || c == ':'
}

pub open spec fn strip_trailing_spaces(r: Seq<char>) -> Seq<char>
    decreases r.len(),
{
    if r.len() > 0 && r.last() == ' ' {
        strip_trailing_spaces(r.drop_last())
    } else {
        r
    }
}

/// Drops the spaces in front of closing punctuation and collapses a closing
/// punctuation mark that directly repeats the previous one ("well,, that").
pub open spec fn fix_punct(s: Seq<char>) -> Seq<char>
    decreases s.len(),
{
    if s.len() == 0 {
        seq![]
    } else {
        let r = fix_punct(s.drop_last());
        let c = s.last();
        if is_closing_punct(c) {
            let r2 = strip_trailing_spaces(r);
            if r2.len() > 0 && r2.last() == c {
                r2
            } else {
                r2.push(c)
            }
        } else {
            r.push(c)
        }
    }
}

/// Whitespace runs collapsed to single spaces, spaces before closing
/// punctuation dropped, doubled punctuation collapsed, ends trimmed.
pub open spec fn normalize(s: Seq<char>) -> Seq<char> {
    trim(fix_punct(join_space(ws_words(s))))
}

/// What `Blocklist::filter` makes of `text` with the word set `words`.
pub open spec fn filter_text(words: Set<Seq<char>>, text: Seq<char>) -> Seq<char> {
    if words =~= Set::empty() {
        text
    } else {
        normalize(concat_tokens(unblocked(words, tokens(text))))
    }
}

/// Whether some string of `ws` holds exactly the characters `x`.
pub open spec fn has_word(ws: Seq<String>, x: Seq<char>) -> bool {
    exists|k: int| 0 <= k < ws.len() && (#[trigger] ws[k])@ == x
}

/// The blocklist: a set of lowercase words, none of them empty.
pub struct Blocklist {
    words: Vec<String>,
}

impl View for Blocklist {
    type V = Set<Seq<char>>;

    closed spec fn view(&self) -> Set<Seq<char>> {
        Set::new(|w: Seq<char>| has_word(self.words@, w))
    }
}

impl Blocklist {
    #[verifier::type_invariant]
    closed spec fn wf(self) -> bool {
        &&& forall|i: int| 0 <= i < self.words@.len() ==> (#[trigger] self.words@[i])@.len() > 0
        &&& forall|i: int, j: int|
            0 <= i < j < self.words@.len() ==> (#[trigger] self.words@[i])@ != (#[trigger] self.words@[j])@
    }

    /// Merges the built-in default list with user-supplied words; matching is
    /// always case-insensitive, so callers need not normalize case.
    pub fn new(custom_words: &[String]) -> (b: Self)
        ensures
            b@ == blocklist_words(custom_words@.map_values(|w: String| w@)),
            b@ == listed_words(custom_words@.map_values(|w: String| w@)),
            forall|i: int| 0 <= i < default_words().len() ==> b@.contains(#[trigger] default_words()[i]),
            !b@.contains(Seq::<char>::empty()),
    {
        proof {
            lemma_default_words_are_lowercase_ascii();
        }
        let ghost custom = custom_words@.map_values(|w: String| w@);
        let defaults = default_word_list();
        let mut words: Vec<String> = Vec::new();
        let mut i: usize = 0;
        while i < defaults.len()
            invariant
                i <= defaults@.len(),
                defaults@.len() == default_words().len(),
                forall|k: int| 0 <= k < defaults@.len() ==> (#[trigger] defaults@[k])@ == default_words()[k],
                forall|k: int|
                    0 <= k < default_words().len() ==> all_ascii(#[trigger] default_words()[k])
                        && default_words()[k].map_values(|c: char| ascii_lower(c)) == default_words()[k]
                        && default_words()[k].len() > 0,
                forall|k: int| 0 <= k < i ==> to_lowercase(#[trigger] default_words()[k]) == default_words()[k],
                forall|k: int| 0 <= k < words@.len() ==> (#[trigger] words@[k])@.len() > 0,
                forall|k: int, l: int| 0 <= k < l < words@.len() ==> (#[trigger] words@[k])@ != (#[trigger] words@[l])@,
                forall|w: Seq<char>| #[trigger] has_word(words@, w) <==> (w.len() > 0 && exists|k: int| 0 <= k < i && w == to_lowercase(#[trigger] default_words()[k])),
            decreases defaults@.len() - i,
        {
            let w = str_to_lowercase(defaults[i]);
            assert(w@ == default_words()[i as int]);
            insert_word(&mut words, w);
            i = i + 1;
        }
        let mut j: usize = 0;
        while j < custom_words.len()
            invariant
                j <= custom_words@.len(),
                custom == custom_words@.map_values(|w: String| w@),
                forall|k: int|
                    0 <= k < default_words().len() ==> to_lowercase(#[trigger] default_words()[k]) == default_words()[k]
                        && default_words()[k].len() > 0,
                forall|k: int| 0 <= k < words@.len() ==> (#[trigger] words@[k])@.len() > 0,
                forall|k: int, l: int| 0 <= k < l < words@.len() ==> (#[trigger] words@[k])@ != (#[trigger] words@[l])@,
                forall|w: Seq<char>| #[trigger] has_word(words@, w) <==> (w.len() > 0 && ((exists|k: int| 0 <= k < default_words().len() && w == to_lowercase(#[trigger] default_words()[k]))
                        || (exists|k: int| 0 <= k < j && w == to_lowercase(trim(#[trigger] custom[k]))))),
                forall|k: int|
                    0 <= k < j ==> (to_lowercase(trim(#[trigger] custom[k])).len() > 0 <==> trim(
                        custom[k],
                    ).len() > 0),
            decreases custom_words@.len() - j,
        {
            let t = trim_str(custom_words[j].as_str());
            let w = str_to_lowercase(t.as_str());
            assert(custom[j as int] == custom_words@[j as int]@);
            proof {
                if t@.len() == 0 {
                    assert(t@.map_values(|c: char| ascii_lower(c)) =~= t@);
                }
            }
            insert_word(&mut words, w);
            j = j + 1;
        }
        let b = Blocklist { words };
        assert(b@ =~= blocklist_words(custom));
        assert(blocklist_words(custom) =~= listed_words(custom)) by {
            assert forall|w: Seq<char>| blocklist_words(custom).contains(w) implies listed_words(
                custom,
            ).contains(w) by {
                if exists|k: int| 0 <= k < default_words().len() && w == to_lowercase(
                    #[trigger] default_words()[k],
                ) {
                    let k = choose|k: int|
                        0 <= k < default_words().len() && w == to_lowercase(
                            #[trigger] default_words()[k],
                        );
                    assert(w == default_words()[k]);
                } else {
                    let k = choose|k: int|
                        0 <= k < custom.len() && w == to_lowercase(trim(#[trigger] custom[k]));
                    assert(trim(custom[k]).len() > 0);
                }
            }
            assert forall|w: Seq<char>| listed_words(custom).contains(w) implies blocklist_words(
                custom,
            ).contains(w) by {
                if exists|k: int| 0 <= k < default_words().len() && w == #[trigger] default_words()[k] {
                    let k = choose|k: int|
                        0 <= k < default_words().len() && w == #[trigger] default_words()[k];
                    assert(w == to_lowercase(default_words()[k]));
                } else {
                    let k = choose|k: int|
                        0 <= k < custom.len() && trim(#[trigger] custom[k]).len() > 0 && w
                            == to_lowercase(trim(custom[k]));
                    assert(to_lowercase(trim(custom[k])).len() > 0);
                }
            }
        }
        assert forall|i: int| 0 <= i < default_words().len() implies b@.contains(
            #[trigger] default_words()[i],
        ) by {
            assert(default_words()[i] == to_lowercase(default_words()[i]));
        }
        b
    }
}

/// Adds `w` unless it is empty or already present.
fn insert_word(words: &mut Vec<String>, w: String)
    requires
        forall|k: int| 0 <= k < old(words)@.len() ==> (#[trigger] old(words)@[k])@.len() > 0,
        forall|k: int, l: int| 0 <= k < l < old(words)@.len() ==> (#[trigger] old(words)@[k])@ != (#[trigger] old(words)@[l])@,
    ensures
        forall|k: int| 0 <= k < final(words)@.len() ==> (#[trigger] final(words)@[k])@.len() > 0,
        forall|k: int, l: int| 0 <= k < l < final(words)@.len() ==> (#[trigger] final(words)@[k])@ != (#[trigger] final(words)@[l])@,
        forall|x: Seq<char>| #[trigger] has_word(final(words)@, x) <==> (has_word(old(words)@, x) || (x == w@ && w@.len() > 0)),
{
    if w.as_str().unicode_len() == 0 {
        return;
    }
    if contains_word(words, &w) {
        return;
    }
    let ghost before = words@;
    words.push(w);
    assert forall|x: Seq<char>| #[trigger] has_word(words@, x) <==> (has_word(before, x) || (x == w@ && w@.len() > 0)) by {
        if exists|k: int| 0 <= k < words@.len() && (#[trigger] words@[k])@ == x {
            let k = choose|k: int| 0 <= k < words@.len() && (#[trigger] words@[k])@ == x;
            if k < before.len() {
                assert(before[k] == words@[k]);
            }
        }
        if exists|k: int| 0 <= k < before.len() && (#[trigger] before[k])@ == x {
            let k = choose|k: int| 0 <= k < before.len() && (#[trigger] before[k])@ == x;
            assert(words@[k] == before[k]);
        }
        if x == w@ {
            assert(words@[before.len() as int]@ == x);
        }
    }
}

/// Whether `words` holds a string equal to `w`.
fn contains_word(words: &Vec<String>, w: &String) -> (r: bool)
    ensures
        r <==> has_word(words@, w@),
{
    let mut i: usize = 0;
    while i < words.len()
        invariant
            i <= words@.len(),
            forall|k: int| 0 <= k < i ==> (#[trigger] words@[k])@ != w@,
        decreases words@.len() - i,
    {
        if words[i] == *w {
            return true;
        }
        i = i + 1;
    }
    false
}


/// One run of `tokenize`: a word, or a run of other characters.
pub enum Token {
    Word(String),
    Other(String),
}

/// A token as a pair: whether it is a word, and its characters.
pub open spec fn token_view(t: Token) -> (bool, Seq<char>) {
    match t {
        Token::Word(s) => (true, s@),
        Token::Other(s) => (false, s@),
    }
}

pub open spec fn tokens_view(ts: Seq<Token>) -> Seq<(bool, Seq<char>)> {
    ts.map_values(|t: Token| token_view(t))
}

impl Token {
    fn as_str(&self) -> (r: &str)
        ensures
            r@ == token_view(*self).1,
    {
        match self {
            Token::Word(s) | Token::Other(s) => s.as_str(),
        }
    }
}

fn make_token(is_word: bool, s: String) -> (t: Token)
    ensures
        token_view(t) == (is_word, s@),
{
    if is_word {
        Token::Word(s)
    } else {
        Token::Other(s)
    }
}

fn word_char(c: char) -> (r: bool)
    ensures
        r == is_word_char(c),
{
    char_is_alphanumeric(c) || c == '\''
}

/// Splits `text` into maximal runs of word characters and runs of everything
/// else (whitespace, punctuation). The runs concatenate back to `text`, none
/// is empty, each is all word characters or all others as its kind says, and
/// neighbouring runs differ in kind.
pub fn tokenize(text: &str) -> (ts: Vec<Token>)
    ensures
        tokens_view(ts@) == tokens(text@),
        concat_tokens(tokens_view(ts@)) == text@,
        forall|k: int| 0 <= k < ts@.len() ==> (#[trigger] tokens_view(ts@)[k]).1.len() > 0,
        forall|k: int, j: int|
            0 <= k < ts@.len() && 0 <= j < tokens_view(ts@)[k].1.len() ==> is_word_char(
                #[trigger] tokens_view(ts@)[k].1[j],
            ) == tokens_view(ts@)[k].0,
        forall|k: int|
            0 <= k < ts@.len() - 1 ==> (#[trigger] tokens_view(ts@)[k]).0 != tokens_view(ts@)[k + 1].0,
        text@.len() == 0 ==> ts@.len() == 0,
{
    proof {
        lemma_tokens_partition_text(text@);
    }
    let chars = chars_of(text);
    let n = chars.len();
    let mut toks: Vec<Token> = Vec::new();
    let mut cur = String::new();
    let mut cur_word = false;
    let mut i: usize = 0;
    while i < n
        invariant
            n == chars@.len(),
            chars@ == text@,
            i <= n,
            i == 0 ==> toks@.len() == 0 && cur@.len() == 0,
            i > 0 ==> cur@.len() > 0 && tokens_view(toks@).push((cur_word, cur@)) == tokens(
                text@.take(i as int),
            ),
        decreases n - i,
    {
        let c = chars[i];
        let k = word_char(c);
        let ghost s1 = text@.take(i as int + 1);
        assert(s1.drop_last() =~= text@.take(i as int));
        assert(s1.last() == c);
        if i > 0 && k != cur_word {
            let ghost before = tokens_view(toks@);
            let mut done = String::new();
            std::mem::swap(&mut done, &mut cur);
            toks.push(make_token(cur_word, done));
            assert(tokens_view(toks@) =~= before.push((cur_word, done@)));
        }
        let ghost prev_cur = cur@;
        string_push(&mut cur, c);
        proof {
            if i == 0 {
                assert(tokens(text@.take(0)) =~= Seq::<(bool, Seq<char>)>::empty());
                assert(cur@ =~= seq![c]);
                assert(tokens_view(toks@) =~= Seq::<(bool, Seq<char>)>::empty());
            } else if k == cur_word {
                let prev = tokens(text@.take(i as int));
                assert(prev.last() == (cur_word, prev_cur));
                assert(tokens_view(toks@).push((k, cur@)) =~= prev.update(
                    prev.len() - 1,
                    (k, prev.last().1.push(c)),
                ));
            } else {
                assert(cur@ =~= seq![c]);
            }
        }
        cur_word = k;
        i = i + 1;
    }
    if n > 0 {
        let ghost before = tokens_view(toks@);
        toks.push(make_token(cur_word, cur));
        assert(tokens_view(toks@) =~= before.push((cur_word, cur@)));
        assert(text@.take(n as int) =~= text@);
    } else {
        assert(tokens_view(toks@) =~= Seq::<(bool, Seq<char>)>::empty());
    }
    toks
}

fn closing_punct(c: char) -> (r: bool)
    ensures
        r == is_closing_punct(c),
{
    c == ',' || c == '.' || c == '!' || c == '?' || c == ';' || c == ':'
}

proof fn lemma_ws_words_facts(s: Seq<char>)
    ensures
        forall|k: int| 0 <= k < ws_words(s).len() ==> (#[trigger] ws_words(s)[k]).len() > 0,
        (s.len() > 0 && !is_whitespace(s.last())) ==> ws_words(s).len() > 0,
    decreases s.len(),
{
    if s.len() > 0 {
        lemma_ws_words_facts(s.drop_last());
        let prev = ws_words(s.drop_last());
        if !is_whitespace(s.last()) && s.len() >= 2 && !is_whitespace(s[s.len() - 2]) {
            assert(s.drop_last().last() == s[s.len() - 2]);
        }
    }
}

proof fn lemma_join_space_empty(ws: Seq<Seq<char>>)
    requires
        forall|k: int| 0 <= k < ws.len() ==> (#[trigger] ws[k]).len() > 0,
    ensures
        join_space(ws).len() == 0 <==> ws.len() == 0,
    decreases ws.len(),
{
    if ws.len() > 1 {
        lemma_join_space_empty(ws.drop_last());
    }
}

proof fn lemma_join_space_extend_last(ws: Seq<Seq<char>>, c: char)
    requires
        ws.len() > 0,
    ensures
        join_space(ws.update(ws.len() - 1, ws.last().push(c))) == join_space(ws).push(c),
{
    let u = ws.update(ws.len() - 1, ws.last().push(c));
    if ws.len() > 1 {
        assert(u.drop_last() =~= ws.drop_last());
        assert(join_space(u) =~= join_space(ws).push(c));
    }
}

proof fn lemma_join_space_push(ws: Seq<Seq<char>>, w: Seq<char>)
    ensures
        ws.len() == 0 ==> join_space(ws.push(w)) == w,
        ws.len() > 0 ==> join_space(ws.push(w)) == join_space(ws) + seq![' '] + w,
{
    assert(ws.push(w).drop_last() =~= ws);
}

/// Collapses every whitespace run to one space between words and drops
/// leading and trailing whitespace.
fn collapse_whitespace(chars: &Vec<char>) -> (out: Vec<char>)
    ensures
        out@ == join_space(ws_words(chars@)),
{
    let n = chars.len();
    let mut out: Vec<char> = Vec::new();
    let mut prev_ws = true;
    let mut i: usize = 0;
    while i < n
        invariant
            n == chars@.len(),
            i <= n,
            out@ == join_space(ws_words(chars@.take(i as int))),
            prev_ws == (i == 0 || is_whitespace(chars@[i - 1])),
            out@.len() > 0 <==> ws_words(chars@.take(i as int)).len() > 0,
        decreases n - i,
    {
        let c = chars[i];
        let ws = char_is_whitespace(c);
        let ghost s0 = chars@.take(i as int);
        let ghost s1 = chars@.take(i as int + 1);
        proof {
            assert(s1.drop_last() =~= s0);
            assert(s1.last() == c);
            lemma_ws_words_facts(s0);
            lemma_ws_words_facts(s1);
            lemma_join_space_empty(ws_words(s1));
        }
        if !ws {
            if prev_ws && out.len() > 0 {
                out.push(' ');
            }
            out.push(c);
            proof {
                let prev = ws_words(s0);
                if !prev_ws {
                    assert(s1[s1.len() - 2] == chars@[i - 1]);
                    lemma_join_space_extend_last(prev, c);
                } else {
                    lemma_join_space_push(prev, seq![c]);
                    if i > 0 {
                        assert(s1[s1.len() - 2] == chars@[i - 1]);
                    }
                    if prev.len() > 0 {
                        assert(out@ =~= join_space(prev) + seq![' '] + seq![c]);
                    } else {
                        assert(out@ =~= seq![c]);
                    }
                }
            }
        }
        prev_ws = ws;
        i = i + 1;
    }
    assert(chars@.take(n as int) =~= chars@);
    out
}

/// Drops the spaces before closing punctuation and collapses a repeated
/// closing punctuation mark.
fn fix_punctuation(chars: &Vec<char>) -> (res: Vec<char>)
    ensures
        res@ == fix_punct(chars@),
{
    let n = chars.len();
    let mut res: Vec<char> = Vec::new();
    let mut i: usize = 0;
    while i < n
        invariant
            n == chars@.len(),
            i <= n,
            res@ == fix_punct(chars@.take(i as int)),
        decreases n - i,
    {
        let c = chars[i];
        let ghost s1 = chars@.take(i as int + 1);
        assert(s1.drop_last() =~= chars@.take(i as int));
        assert(s1.last() == c);
        let ghost r0 = res@;
        if closing_punct(c) {
            while res.len() > 0 && res[res.len() - 1] == ' '
                invariant
                    strip_trailing_spaces(res@) == strip_trailing_spaces(r0),
                decreases res.len(),
            {
                let ghost before = res@;
                res.pop();
                assert(res@ =~= before.drop_last());
            }
            assert(strip_trailing_spaces(res@) == res@);
            if res.len() > 0 && res[res.len() - 1] == c {
                i = i + 1;
                continue;
            }
            res.push(c);
        } else {
            res.push(c);
        }
        i = i + 1;
    }
    assert(chars@.take(n as int) =~= chars@);
    res
}

/// Collapses runs of whitespace into single spaces, drops stray spaces before
/// punctuation, collapses the doubled punctuation a removed word leaves
/// behind, and trims both ends.
fn normalize_whitespace(text: &str) -> (r: String)
    ensures
        r@ == normalize(text@),
{
    let chars = chars_of(text);
    let collapsed = collapse_whitespace(&chars);
    let fixed = fix_punctuation(&collapsed);
    let trimmed = trim_chars(&fixed);
    string_from_chars(&trimmed)
}

impl Blocklist {
    /// Removes every whole-word, case-insensitive match of a blocklisted word
    /// from `text` and tidies the whitespace and punctuation left behind. A
    /// word is matched only as a whole: "assassin" is untouched by "ass".
    pub fn filter(&self, text: &str) -> (r: String)
        ensures
            r@ == filter_text(self@, text@),
            !(self@ =~= Set::empty()) ==> is_normalized(r@),
            non_ascii_whitespace_is_not_alphanumeric() ==> words_of(r@) == without_blocked(
                self@,
                words_of(text@),
            ),
    {
        proof {
            use_type_invariant(self);
            if non_ascii_whitespace_is_not_alphanumeric() {
                lemma_filter_removes_exactly_the_blocked_words(self@, text@);
            }
            if !(self@ =~= Set::empty()) {
                lemma_normalize_shape(concat_tokens(unblocked(self@, tokens(text@))));
            }
        }
        if self.words.len() == 0 {
            assert(self@ =~= Set::<Seq<char>>::empty());
            return String::from_str(text);
        }
        assert(self@.contains(self.words@[0]@));
        let toks = tokenize(text);
        let ghost tv = tokens_view(toks@);
        let mut joined = String::new();
        let mut i: usize = 0;
        while i < toks.len()
            invariant
                i <= toks@.len(),
                tv == tokens_view(toks@),
                tv == tokens(text@),
                self@ == Set::new(|w: Seq<char>| has_word(self.words@, w)),
                joined@ == concat_tokens(unblocked(self@, tv.take(i as int))),
            decreases toks@.len() - i,
        {
            let t = &toks[i];
            let keep = match t {
                Token::Word(w) => {
                    let l = str_to_lowercase(w.as_str());
                    !contains_word(&self.words, &l)
                },
                Token::Other(_) => true,
            };
            let ghost prev = unblocked(self@, tv.take(i as int));
            assert(tv.take(i as int + 1).drop_last() =~= tv.take(i as int));
            assert(tv.take(i as int + 1).last() == token_view(*t));
            if keep {
                joined.append(t.as_str());
                assert(prev.push(token_view(*t)).drop_last() =~= prev);
            }
            i = i + 1;
        }
        assert(tv.take(toks@.len() as int) =~= tv);
        normalize_whitespace(joined.as_str())
    }
}


/// Tokenizing loses nothing: the runs concatenate back to the text, every run
/// is non-empty and made of one character class, and neighbouring runs are
/// of different classes (the runs are maximal).
pub proof fn lemma_tokens_partition_text(s: Seq<char>)
    ensures
        concat_tokens(tokens(s)) == s,
        forall|k: int| 0 <= k < tokens(s).len() ==> (#[trigger] tokens(s)[k]).1.len() > 0,
        forall|k: int, j: int|
            0 <= k < tokens(s).len() && 0 <= j < tokens(s)[k].1.len() ==> is_word_char(
                #[trigger] tokens(s)[k].1[j],
            ) == tokens(s)[k].0,
        forall|k: int|
            0 <= k < tokens(s).len() - 1 ==> (#[trigger] tokens(s)[k]).0 != tokens(s)[k + 1].0,
    decreases s.len(),
{
    if s.len() > 0 {
        let p = s.drop_last();
        lemma_tokens_partition_text(p);
        let prev = tokens(p);
        let c = s.last();
        let k = is_word_char(c);
        let t = tokens(s);
        if prev.len() > 0 && prev.last().0 == k {
            assert(t.drop_last() =~= prev.drop_last());
            assert(concat_tokens(prev) == concat_tokens(prev.drop_last()) + prev.last().1);
            assert(concat_tokens(t) =~= concat_tokens(prev).push(c));
            assert forall|a: int, j: int|
                0 <= a < t.len() && 0 <= j < t[a].1.len() implies is_word_char(
                #[trigger] t[a].1[j],
            ) == t[a].0 by {
                if a < t.len() - 1 {
                    assert(t[a] == prev[a]);
                } else if j < prev.last().1.len() {
                    assert(t[a].1[j] == prev[a].1[j]);
                }
            }
        } else {
            assert(t.drop_last() =~= prev);
            assert(concat_tokens(t) =~= concat_tokens(prev).push(c));
        }
        assert(s =~= p.push(c));
    }
}

proof fn lemma_unblocked_all_kept(words: Set<Seq<char>>, toks: Seq<(bool, Seq<char>)>)
    requires
        forall|k: int| 0 <= k < toks.len() && (#[trigger] toks[k]).0 ==> !words.contains(
            to_lowercase(toks[k].1),
        ),
    ensures
        unblocked(words, toks) == toks,
    decreases toks.len(),
{
    if toks.len() > 0 {
        let p = toks.drop_last();
        assert forall|k: int| 0 <= k < p.len() && (#[trigger] p[k]).0 implies !words.contains(
            to_lowercase(p[k].1),
        ) by {
            assert(p[k] == toks[k]);
        }
        lemma_unblocked_all_kept(words, p);
        assert(toks.last() == toks[toks.len() - 1]);
        assert(p.push(toks.last()) =~= toks);
    }
}

/// A text none of whose words is blocklisted only has its whitespace and
/// punctuation spacing normalized.
pub proof fn lemma_filter_without_blocked_words_only_normalizes(
    words: Set<Seq<char>>,
    text: Seq<char>,
)
    requires
        !(words =~= Set::empty()),
        forall|k: int|
            0 <= k < tokens(text).len() && (#[trigger] tokens(text)[k]).0 ==> !words.contains(
                to_lowercase(tokens(text)[k].1),
            ),
    ensures
        filter_text(words, text) == normalize(text),
{
    lemma_unblocked_all_kept(words, tokens(text));
    lemma_tokens_partition_text(text);
}

/// No blocklisted word survives: every token that is kept comes from the
/// input, and none of the kept words has a blocklisted lowercase form; every
/// non-word run is kept.
pub proof fn lemma_unblocked_has_no_blocked_word(
    words: Set<Seq<char>>,
    toks: Seq<(bool, Seq<char>)>,
)
    ensures
        forall|k: int|
            0 <= k < unblocked(words, toks).len() ==> toks.contains(
                #[trigger] unblocked(words, toks)[k],
            ) && !(unblocked(words, toks)[k].0 && words.contains(
                to_lowercase(unblocked(words, toks)[k].1),
            )),
        forall|k: int|
            0 <= k < toks.len() && !(#[trigger] toks[k]).0 ==> unblocked(words, toks).contains(
                toks[k],
            ),
    decreases toks.len(),
{
    if toks.len() > 0 {
        let p = toks.drop_last();
        lemma_unblocked_has_no_blocked_word(words, p);
        let u = unblocked(words, toks);
        let up = unblocked(words, p);
        assert forall|k: int| 0 <= k < u.len() implies toks.contains(#[trigger] u[k]) && !(
        u[k].0 && words.contains(to_lowercase(u[k].1))) by {
            if k < up.len() {
                assert(u[k] == up[k]);
                let j = choose|j: int| 0 <= j < p.len() && p[j] == up[k];
                assert(toks[j] == p[j]);
            } else {
                assert(toks[toks.len() - 1] == toks.last());
            }
        }
        assert forall|k: int| 0 <= k < toks.len() && !(#[trigger] toks[k]).0 implies u.contains(
            toks[k],
        ) by {
            if k < toks.len() - 1 {
                assert(p[k] == toks[k]);
                let j = choose|j: int| 0 <= j < up.len() && up[j] == p[k];
                assert(u[j] == up[j]);
            } else {
                assert(u[u.len() - 1] == toks.last());
            }
        }
    }
}

/// Whether `x` ends with a word character.
pub open spec fn ends_word(x: Seq<char>) -> bool {
    x.len() > 0 && is_word_char(x.last())
}

/// The words after appending `c` to a text whose words are `ws` and which
/// ends with a word character exactly when `prev_word` holds.
pub open spec fn word_step(ws: Seq<Seq<char>>, prev_word: bool, c: char) -> Seq<Seq<char>> {
    if !is_word_char(c) {
        ws
    } else if prev_word && ws.len() > 0 {
        ws.update(ws.len() - 1, ws.last().push(c))
    } else {
        ws.push(seq![c])
    }
}

/// The words of `s`: its maximal runs of word characters, in order.
pub open spec fn words_of(s: Seq<char>) -> Seq<Seq<char>>
    decreases s.len(),
{
    if s.len() == 0 {
        seq![]
    } else {
        word_step(words_of(s.drop_last()), ends_word(s.drop_last()), s.last())
    }
}

/// The words of `ws` whose lowercase form is not in `words`, in order.
pub open spec fn without_blocked(words: Set<Seq<char>>, ws: Seq<Seq<char>>) -> Seq<Seq<char>>
    decreases ws.len(),
{
    if ws.len() == 0 {
        seq![]
    } else {
        let prev = without_blocked(words, ws.drop_last());
        if words.contains(to_lowercase(ws.last())) {
            prev
        } else {
            prev.push(ws.last())
        }
    }
}

/// The texts of the word tokens, in order.
pub open spec fn word_texts(toks: Seq<(bool, Seq<char>)>) -> Seq<Seq<char>>
    decreases toks.len(),
{
    if toks.len() == 0 {
        seq![]
    } else {
        let prev = word_texts(toks.drop_last());
        if toks.last().0 {
            prev.push(toks.last().1)
        } else {
            prev
        }
    }
}

/// Runs as `tokens` makes them: non-empty, of one class each, and no two word
/// runs next to each other.
pub open spec fn runs_wf(toks: Seq<(bool, Seq<char>)>) -> bool {
    &&& forall|k: int| 0 <= k < toks.len() ==> (#[trigger] toks[k]).1.len() > 0
    &&& forall|k: int, j: int|
        0 <= k < toks.len() && 0 <= j < toks[k].1.len() ==> is_word_char(#[trigger] toks[k].1[j])
            == toks[k].0
    &&& forall|k: int| 0 < k < toks.len() && (#[trigger] toks[k]).0 ==> !toks[k - 1].0
}

proof fn lemma_words_of_push(x: Seq<char>, c: char)
    ensures
        words_of(x.push(c)) == word_step(words_of(x), ends_word(x), c),
{
    assert(x.push(c).drop_last() =~= x);
}

proof fn lemma_ends_word_has_words(x: Seq<char>)
    ensures
        ends_word(x) ==> words_of(x).len() > 0,
    decreases x.len(),
{
    if x.len() > 0 {
        lemma_ends_word_has_words(x.drop_last());
    }
}

/// Words do not cross a boundary at which one side is not a word character.
proof fn lemma_words_of_concat(a: Seq<char>, b: Seq<char>)
    requires
        !(ends_word(a) && b.len() > 0 && is_word_char(b[0])),
    ensures
        words_of(a + b) == words_of(a) + words_of(b),
        ends_word(a + b) == if b.len() == 0 { ends_word(a) } else { ends_word(b) },
    decreases b.len(),
{
    if b.len() == 0 {
        assert(a + b =~= a);
        assert(words_of(a) + words_of(b) =~= words_of(a));
    } else {
        let bp = b.drop_last();
        let c = b.last();
        if bp.len() > 0 {
            assert(bp[0] == b[0]);
        }
        lemma_words_of_concat(a, bp);
        assert(a + b =~= (a + bp).push(c));
        assert(b =~= bp.push(c));
        lemma_words_of_push(a + bp, c);
        lemma_words_of_push(bp, c);
        lemma_ends_word_has_words(bp);
        let wa = words_of(a);
        let wb = words_of(bp);
        if is_word_char(c) {
            if bp.len() > 0 && ends_word(bp) {
                assert((wa + wb).update((wa + wb).len() - 1, (wa + wb).last().push(c)) =~= wa
                    + wb.update(wb.len() - 1, wb.last().push(c)));
            } else {
                if bp.len() == 0 {
                    assert(!ends_word(a));
                }
                assert((wa + wb).push(seq![c]) =~= wa + wb.push(seq![c]));
            }
        }
    }
}

proof fn lemma_words_of_non_word_run(s: Seq<char>)
    requires
        forall|j: int| 0 <= j < s.len() ==> !is_word_char(#[trigger] s[j]),
    ensures
        words_of(s) == Seq::<Seq<char>>::empty(),
        !ends_word(s),
    decreases s.len(),
{
    if s.len() > 0 {
        let p = s.drop_last();
        assert forall|j: int| 0 <= j < p.len() implies !is_word_char(#[trigger] p[j]) by {
            assert(p[j] == s[j]);
        }
        lemma_words_of_non_word_run(p);
        assert(!is_word_char(s[s.len() - 1]));
    }
}

proof fn lemma_words_of_word_run(s: Seq<char>)
    requires
        s.len() > 0,
        forall|j: int| 0 <= j < s.len() ==> is_word_char(#[trigger] s[j]),
    ensures
        words_of(s) == seq![s],
        ends_word(s),
    decreases s.len(),
{
    let p = s.drop_last();
    assert(is_word_char(s[s.len() - 1]));
    assert(p.push(s.last()) =~= s);
    lemma_words_of_push(p, s.last());
    if p.len() > 0 {
        assert(is_word_char(p[p.len() - 1]));
        assert forall|j: int| 0 <= j < p.len() implies is_word_char(#[trigger] p[j]) by {
            assert(p[j] == s[j]);
        }
        lemma_words_of_word_run(p);
        assert(p.push(s.last()) =~= s);
        assert(s.drop_last() =~= p);
        assert(seq![p].last() == p);
        assert(seq![p].update(0, s) =~= seq![s]);
    } else {
        assert(seq![s.last()] =~= s);
        assert(Seq::<Seq<char>>::empty().push(seq![s.last()]) =~= seq![s]);
    }
}

/// The words of concatenated runs are the texts of the word runs.
proof fn lemma_words_of_runs(toks: Seq<(bool, Seq<char>)>)
    requires
        runs_wf(toks),
    ensures
        words_of(concat_tokens(toks)) == word_texts(toks),
        ends_word(concat_tokens(toks)) == (toks.len() > 0 && toks.last().0),
    decreases toks.len(),
{
    if toks.len() > 0 {
        let p = toks.drop_last();
        let t = toks.last();
        assert(t == toks[toks.len() - 1]);
        assert forall|k: int| 0 <= k < p.len() implies (#[trigger] p[k]).1.len() > 0 by {
            assert(p[k] == toks[k]);
        }
        assert forall|k: int, j: int|
            0 <= k < p.len() && 0 <= j < p[k].1.len() implies is_word_char(#[trigger] p[k].1[j])
            == p[k].0 by {
            assert(p[k] == toks[k]);
        }
        assert forall|k: int| 0 < k < p.len() && (#[trigger] p[k]).0 implies !p[k - 1].0 by {
            assert(p[k] == toks[k]);
            assert(p[k - 1] == toks[k - 1]);
        }
        lemma_words_of_runs(p);
        assert forall|j: int| 0 <= j < t.1.len() implies is_word_char(#[trigger] t.1[j]) == t.0 by {
        }
        if p.len() > 0 && t.0 {
            assert(p.last() == toks[toks.len() - 2]);
        }
        if t.0 {
            lemma_words_of_word_run(t.1);
        } else {
            lemma_words_of_non_word_run(t.1);
        }
        lemma_words_of_concat(concat_tokens(p), t.1);
        if t.0 {
            assert(word_texts(p) + seq![t.1] =~= word_texts(p).push(t.1));
        } else {
            assert(word_texts(p) + Seq::<Seq<char>>::empty() =~= word_texts(p));
        }
    }
}

proof fn lemma_unblocked_keeps_last_run(words: Set<Seq<char>>, toks: Seq<(bool, Seq<char>)>)
    requires
        toks.len() > 0,
        !toks.last().0,
    ensures
        unblocked(words, toks).len() > 0,
        unblocked(words, toks).last() == toks.last(),
{
}

proof fn lemma_unblocked_runs_wf(words: Set<Seq<char>>, toks: Seq<(bool, Seq<char>)>)
    requires
        runs_wf(toks),
        forall|k: int| 0 <= k < toks.len() - 1 ==> (#[trigger] toks[k]).0 != toks[k + 1].0,
    ensures
        runs_wf(unblocked(words, toks)),
        word_texts(unblocked(words, toks)) == without_blocked(words, word_texts(toks)),
    decreases toks.len(),
{
    if toks.len() > 0 {
        let p = toks.drop_last();
        let t = toks.last();
        assert(t == toks[toks.len() - 1]);
        assert forall|k: int| 0 <= k < p.len() implies (#[trigger] p[k]).1.len() > 0 by {
            assert(p[k] == toks[k]);
        }
        assert forall|k: int, j: int|
            0 <= k < p.len() && 0 <= j < p[k].1.len() implies is_word_char(#[trigger] p[k].1[j])
            == p[k].0 by {
            assert(p[k] == toks[k]);
        }
        assert forall|k: int| 0 < k < p.len() && (#[trigger] p[k]).0 implies !p[k - 1].0 by {
            assert(p[k] == toks[k]);
            assert(p[k - 1] == toks[k - 1]);
        }
        assert forall|k: int| 0 <= k < p.len() - 1 implies (#[trigger] p[k]).0 != p[k + 1].0 by {
            assert(p[k] == toks[k]);
            assert(p[k + 1] == toks[k + 1]);
        }
        lemma_unblocked_runs_wf(words, p);
        let up = unblocked(words, p);
        let u = unblocked(words, toks);
        if !(t.0 && words.contains(to_lowercase(t.1))) {
            assert(u == up.push(t));
            if t.0 && p.len() > 0 {
                assert(p.last() == toks[toks.len() - 2]);
                lemma_unblocked_keeps_last_run(words, p);
            }
            assert forall|k: int| 0 <= k < u.len() implies (#[trigger] u[k]).1.len() > 0 by {
                if k < up.len() {
                    assert(u[k] == up[k]);
                }
            }
            assert forall|k: int, j: int|
                0 <= k < u.len() && 0 <= j < u[k].1.len() implies is_word_char(
                #[trigger] u[k].1[j],
            ) == u[k].0 by {
                if k < up.len() {
                    assert(u[k] == up[k]);
                }
            }
            assert forall|k: int| 0 < k < u.len() && (#[trigger] u[k]).0 implies !u[k - 1].0 by {
                if k < up.len() {
                    assert(u[k] == up[k]);
                    assert(u[k - 1] == up[k - 1]);
                } else {
                    assert(u[k - 1] == up.last());
                }
            }
        }
        if t.0 {
            assert(word_texts(toks) == word_texts(p).push(t.1));
            assert(word_texts(toks).drop_last() =~= word_texts(p));
            assert(word_texts(toks).last() == t.1);
            if !words.contains(to_lowercase(t.1)) {
                assert(u.drop_last() =~= up);
            }
        } else {
            assert(u.drop_last() =~= up);
        }
    }
}

proof fn lemma_collapse_keeps_words(s: Seq<char>)
    requires
        forall|c: char| is_whitespace(c) ==> !is_word_char(c),
        !is_word_char(' '),
    ensures
        words_of(join_space(ws_words(s))) == words_of(s),
        (s.len() > 0 && !is_whitespace(s.last())) ==> (join_space(ws_words(s)).len() > 0
            && join_space(ws_words(s)).last() == s.last()),
        join_space(ws_words(s)).len() == 0 ==> words_of(s) == Seq::<Seq<char>>::empty(),
    decreases s.len(),
{
    if s.len() > 0 {
        let p = s.drop_last();
        let c = s.last();
        lemma_collapse_keeps_words(p);
        lemma_ws_words_facts(p);
        lemma_ws_words_facts(s);
        assert(p.push(c) =~= s);
        lemma_words_of_push(p, c);
        let jp = join_space(ws_words(p));
        let j = join_space(ws_words(s));
        lemma_join_space_empty(ws_words(p));
        lemma_join_space_empty(ws_words(s));
        if is_whitespace(c) {
            assert(ws_words(s) == ws_words(p));
        } else if s.len() >= 2 && !is_whitespace(s[s.len() - 2]) {
            assert(p.last() == s[s.len() - 2]);
            lemma_join_space_extend_last(ws_words(p), c);
            assert(j == jp.push(c));
            lemma_words_of_push(jp, c);
        } else {
            assert(!ends_word(p)) by {
                if p.len() > 0 {
                    assert(p.last() == s[s.len() - 2]);
                }
            }
            lemma_join_space_push(ws_words(p), seq![c]);
            if ws_words(p).len() > 0 {
                assert(j == jp + seq![' '] + seq![c]);
                assert(j =~= jp.push(' ').push(c));
                lemma_words_of_push(jp, ' ');
                lemma_words_of_push(jp.push(' '), c);
            } else {
                assert(j == seq![c]);
                assert(seq![c] =~= Seq::<char>::empty().push(c));
                lemma_words_of_push(Seq::<char>::empty(), c);
            }
        }
    }
}

proof fn lemma_strip_spaces_keeps_words(r: Seq<char>)
    requires
        !is_word_char(' '),
    ensures
        words_of(strip_trailing_spaces(r)) == words_of(r),
    decreases r.len(),
{
    if r.len() > 0 && r.last() == ' ' {
        let p = r.drop_last();
        lemma_strip_spaces_keeps_words(p);
        assert(p.push(' ') =~= r);
        lemma_words_of_push(p, ' ');
    }
}

proof fn lemma_fix_punct_keeps_words(s: Seq<char>)
    requires
        forall|c: char| is_closing_punct(c) ==> !is_word_char(c),
        !is_word_char(' '),
    ensures
        words_of(fix_punct(s)) == words_of(s),
        ends_word(fix_punct(s)) == ends_word(s),
    decreases s.len(),
{
    if s.len() > 0 {
        let p = s.drop_last();
        let c = s.last();
        lemma_fix_punct_keeps_words(p);
        assert(p.push(c) =~= s);
        lemma_words_of_push(p, c);
        let r = fix_punct(p);
        if is_closing_punct(c) {
            let r2 = strip_trailing_spaces(r);
            lemma_strip_spaces_keeps_words(r);
            if !(r2.len() > 0 && r2.last() == c) {
                lemma_words_of_push(r2, c);
            }
        } else {
            lemma_words_of_push(r, c);
        }
    }
}

proof fn lemma_trim_start_keeps_words(x: Seq<char>)
    requires
        forall|c: char| is_whitespace(c) ==> !is_word_char(c),
    ensures
        words_of(trim_start(x)) == words_of(x),
    decreases x.len(),
{
    if x.len() > 0 && is_whitespace(x[0]) {
        let rest = x.drop_first();
        lemma_trim_start_keeps_words(rest);
        assert(seq![x[0]] + rest =~= x);
        lemma_words_of_non_word_run(seq![x[0]]);
        lemma_words_of_concat(seq![x[0]], rest);
        assert(Seq::<Seq<char>>::empty() + words_of(rest) =~= words_of(rest));
    }
}

proof fn lemma_trim_end_keeps_words(x: Seq<char>)
    requires
        forall|c: char| is_whitespace(c) ==> !is_word_char(c),
    ensures
        words_of(trim_end(x)) == words_of(x),
    decreases x.len(),
{
    if x.len() > 0 && is_whitespace(x.last()) {
        let p = x.drop_last();
        lemma_trim_end_keeps_words(p);
        assert(p.push(x.last()) =~= x);
        lemma_words_of_push(p, x.last());
    }
}

proof fn lemma_trim_keeps_words(x: Seq<char>)
    requires
        forall|c: char| is_whitespace(c) ==> !is_word_char(c),
    ensures
        words_of(trim(x)) == words_of(x),
{
    lemma_trim_start_keeps_words(x);
    lemma_trim_end_keeps_words(trim_start(x));
}

proof fn lemma_without_blocked_empty_set(ws: Seq<Seq<char>>)
    ensures
        without_blocked(Set::empty(), ws) == ws,
    decreases ws.len(),
{
    if ws.len() > 0 {
        lemma_without_blocked_empty_set(ws.drop_last());
        assert(ws.drop_last().push(ws.last()) =~= ws);
    }
}

proof fn lemma_without_blocked_has_none(words: Set<Seq<char>>, ws: Seq<Seq<char>>)
    ensures
        forall|i: int|
            0 <= i < without_blocked(words, ws).len() ==> !words.contains(
                to_lowercase(#[trigger] without_blocked(words, ws)[i]),
            ),
    decreases ws.len(),
{
    if ws.len() > 0 {
        lemma_without_blocked_has_none(words, ws.drop_last());
        let prev = without_blocked(words, ws.drop_last());
        assert forall|i: int| 0 <= i < without_blocked(words, ws).len() implies !words.contains(
            to_lowercase(#[trigger] without_blocked(words, ws)[i]),
        ) by {
            if i < prev.len() {
                assert(without_blocked(words, ws)[i] == prev[i]);
            }
        }
    }
}

/// No White_Space character beyond ASCII is alphabetic or numeric. This is
/// a fact of the Unicode character database, which std's documentation does
/// not state; the laws below that depend on it take it as a premise.
pub open spec fn non_ascii_whitespace_is_not_alphanumeric() -> bool {
    forall|c: char| is_whitespace(c) && !is_ascii_char(c) ==> !#[trigger] unicode_alphanumeric(c)
}

/// Whitespace, the space and the closing punctuation marks never belong to a
/// word.
proof fn lemma_separators_are_not_word_chars()
    requires
        non_ascii_whitespace_is_not_alphanumeric(),
    ensures
        forall|c: char| is_whitespace(c) ==> !#[trigger] is_word_char(c),
        forall|c: char| is_closing_punct(c) ==> !#[trigger] is_word_char(c),
        !is_word_char(' '),
{
    assert forall|c: char| is_whitespace(c) implies !#[trigger] is_word_char(c) by {
        if !is_ascii_char(c) {
            assert(!unicode_alphanumeric(c));
        }
    }
}

/// The blocklist removes exactly the blocklisted words: the words of the
/// filtered text are the words of the input without the blocklisted ones,
/// in order. No blocklisted word survives, and no other word is lost, split
/// or merged with a neighbour.
pub proof fn lemma_filter_removes_exactly_the_blocked_words(
    words: Set<Seq<char>>,
    text: Seq<char>,
)
    requires
        non_ascii_whitespace_is_not_alphanumeric(),
    ensures
        words_of(filter_text(words, text)) == without_blocked(words, words_of(text)),
        forall|i: int|
            0 <= i < words_of(filter_text(words, text)).len() ==> !words.contains(
                to_lowercase(#[trigger] words_of(filter_text(words, text))[i]),
            ),
{
    lemma_separators_are_not_word_chars();
    let toks = tokens(text);
    lemma_tokens_partition_text(text);
    assert(runs_wf(toks));
    lemma_words_of_runs(toks);
    if words =~= Set::empty() {
        lemma_without_blocked_empty_set(words_of(text));
        assert(words == Set::<Seq<char>>::empty());
    } else {
        lemma_unblocked_runs_wf(words, toks);
        let kept = unblocked(words, toks);
        lemma_words_of_runs(kept);
        let k = concat_tokens(kept);
        lemma_collapse_keeps_words(k);
        let j = join_space(ws_words(k));
        lemma_fix_punct_keeps_words(j);
        lemma_trim_keeps_words(fix_punct(j));
    }
    lemma_without_blocked_has_none(words, words_of(text));
}

/// `s` with every whitespace character taken out.
pub open spec fn without_whitespace(s: Seq<char>) -> Seq<char>
    decreases s.len(),
{
    if s.len() == 0 {
        seq![]
    } else {
        let p = without_whitespace(s.drop_last());
        if is_whitespace(s.last()) {
            p
        } else {
            p.push(s.last())
        }
    }
}

/// `s` without each closing punctuation mark that repeats the character
/// kept just before it ("well,, that" becomes "well, that").
pub open spec fn dedup_punct(s: Seq<char>) -> Seq<char>
    decreases s.len(),
{
    if s.len() == 0 {
        seq![]
    } else {
        let d = dedup_punct(s.drop_last());
        let c = s.last();
        if is_closing_punct(c) && d.len() > 0 && d.last() == c {
            d
        } else {
            d.push(c)
        }
    }
}

/// The only whitespace character of `y` is the space.
pub open spec fn only_space_whitespace(y: Seq<char>) -> bool {
    forall|i: int| 0 <= i < y.len() && is_whitespace(#[trigger] y[i]) ==> y[i] == ' '
}

/// No two spaces stand next to each other in `y`.
pub open spec fn no_double_space(y: Seq<char>) -> bool {
    forall|i: int, j: int|
        #![trigger y[i], y[j]]
        0 <= i && j == i + 1 && j < y.len() ==> !(y[i] == ' ' && y[j] == ' ')
}

/// Before a closing punctuation mark of `y` stands neither a space nor the
/// same mark.
pub open spec fn punct_tidy(y: Seq<char>) -> bool {
    forall|i: int, j: int|
        #![trigger y[i], y[j]]
        0 <= i && j == i + 1 && j < y.len() && is_closing_punct(y[j]) ==> y[i] != ' ' && y[i] != y[j]
}

/// Text as `normalize` leaves it: no whitespace at either end, single spaces
/// as the only whitespace, and tidy closing punctuation.
pub open spec fn is_normalized(y: Seq<char>) -> bool {
    &&& y.len() > 0 ==> !is_whitespace(y[0]) && !is_whitespace(y.last())
    &&& only_space_whitespace(y)
    &&& no_double_space(y)
    &&& punct_tidy(y)
}

proof fn lemma_without_whitespace_concat(a: Seq<char>, b: Seq<char>)
    ensures
        without_whitespace(a + b) == without_whitespace(a) + without_whitespace(b),
    decreases b.len(),
{
    if b.len() == 0 {
        assert(a + b =~= a);
        assert(without_whitespace(a) + without_whitespace(b) =~= without_whitespace(a));
    } else {
        let bp = b.drop_last();
        lemma_without_whitespace_concat(a, bp);
        assert((a + b).drop_last() =~= a + bp);
        assert((a + b).last() == b.last());
        if !is_whitespace(b.last()) {
            assert(without_whitespace(a) + without_whitespace(bp).push(b.last()) =~= (
            without_whitespace(a) + without_whitespace(bp)).push(b.last()));
        }
    }
}

proof fn lemma_without_whitespace_of_blanks(s: Seq<char>)
    requires
        forall|j: int| 0 <= j < s.len() ==> is_whitespace(#[trigger] s[j]),
    ensures
        without_whitespace(s) == Seq::<char>::empty(),
    decreases s.len(),
{
    if s.len() > 0 {
        let p = s.drop_last();
        assert forall|j: int| 0 <= j < p.len() implies is_whitespace(#[trigger] p[j]) by {
            assert(p[j] == s[j]);
        }
        lemma_without_whitespace_of_blanks(p);
        assert(is_whitespace(s[s.len() - 1]));
    }
}

/// The three local properties of normalized text hold of every slice.
proof fn lemma_tidy_subrange(y: Seq<char>, a: int, b: int)
    requires
        0 <= a <= b <= y.len(),
    ensures
        only_space_whitespace(y) ==> only_space_whitespace(y.subrange(a, b)),
        no_double_space(y) ==> no_double_space(y.subrange(a, b)),
        punct_tidy(y) ==> punct_tidy(y.subrange(a, b)),
{
    let z = y.subrange(a, b);
    if only_space_whitespace(y) {
        assert forall|i: int| 0 <= i < z.len() && is_whitespace(#[trigger] z[i]) implies z[i] == ' ' by {
            assert(z[i] == y[a + i]);
        }
    }
    if no_double_space(y) {
        assert forall|i: int, j: int|
            #![trigger z[i], z[j]]
            0 <= i && j == i + 1 && j < z.len() implies !(z[i] == ' ' && z[j] == ' ') by {
            assert(z[i] == y[a + i] && z[j] == y[a + j]);
        }
    }
    if punct_tidy(y) {
        assert forall|i: int, j: int|
            #![trigger z[i], z[j]]
            0 <= i && j == i + 1 && j < z.len() && is_closing_punct(z[j]) implies z[i] != ' ' && z[i]
            != z[j] by {
            assert(z[i] == y[a + i] && z[j] == y[a + j]);
        }
    }
}

/// Collapsing whitespace leaves single spaces between non-whitespace runs
/// and keeps every other character.
proof fn lemma_collapse_shape(s: Seq<char>)
    ensures
        only_space_whitespace(join_space(ws_words(s))),
        no_double_space(join_space(ws_words(s))),
        join_space(ws_words(s)).len() > 0 ==> !is_whitespace(join_space(ws_words(s))[0])
            && !is_whitespace(join_space(ws_words(s)).last()),
        without_whitespace(join_space(ws_words(s))) == without_whitespace(s),
    decreases s.len(),
{
    if s.len() > 0 {
        let p = s.drop_last();
        let c = s.last();
        lemma_collapse_shape(p);
        lemma_ws_words_facts(p);
        lemma_ws_words_facts(s);
        let jp = join_space(ws_words(p));
        let j = join_space(ws_words(s));
        lemma_join_space_empty(ws_words(p));
        lemma_join_space_empty(ws_words(s));
        if is_whitespace(c) {
            assert(ws_words(s) == ws_words(p));
        } else {
            let mid: Seq<char> = if ws_words(p).len() > 0 && !(s.len() >= 2 && !is_whitespace(
                s[s.len() - 2],
            )) {
                jp.push(' ')
            } else {
                jp
            };
            if s.len() >= 2 && !is_whitespace(s[s.len() - 2]) {
                assert(p.last() == s[s.len() - 2]);
                lemma_join_space_extend_last(ws_words(p), c);
            } else {
                lemma_join_space_push(ws_words(p), seq![c]);
                if ws_words(p).len() > 0 {
                    assert(j =~= jp.push(' ').push(c));
                } else {
                    assert(j =~= jp.push(c));
                }
            }
            assert(j == mid.push(c));
            assert(j.drop_last() =~= mid);
            if mid.len() > jp.len() {
                assert(mid.drop_last() =~= jp);
                assert(without_whitespace(mid) == without_whitespace(jp));
            }
            assert(without_whitespace(j) == without_whitespace(mid).push(c));
            assert forall|i: int| 0 <= i < j.len() && is_whitespace(#[trigger] j[i]) implies j[i]
                == ' ' by {
                if i < jp.len() {
                    assert(j[i] == jp[i]);
                }
            }
            assert forall|i: int, k: int|
                #![trigger j[i], j[k]]
                0 <= i && k == i + 1 && k < j.len() implies !(j[i] == ' ' && j[k] == ' ') by {
                if k < jp.len() {
                    assert(j[i] == jp[i] && j[k] == jp[k]);
                } else if i < jp.len() {
                    assert(j[i] == jp.last());
                }
            }
            if jp.len() > 0 {
                assert(j[0] == jp[0]);
            }
        }
    }
}

proof fn lemma_strip_shape(r: Seq<char>)
    ensures
        strip_trailing_spaces(r).len() <= r.len(),
        strip_trailing_spaces(r) == r.subrange(0, strip_trailing_spaces(r).len() as int),
        strip_trailing_spaces(r).len() > 0 ==> strip_trailing_spaces(r).last() != ' ',
        forall|j: int|
            strip_trailing_spaces(r).len() <= j < r.len() ==> #[trigger] r[j] == ' ',
    decreases r.len(),
{
    if r.len() > 0 && r.last() == ' ' {
        let p = r.drop_last();
        lemma_strip_shape(p);
        let m = strip_trailing_spaces(p).len() as int;
        assert(p.subrange(0, m) =~= r.subrange(0, m));
        assert forall|j: int| m <= j < r.len() implies #[trigger] r[j] == ' ' by {
            if j < p.len() {
                assert(p[j] == r[j]);
            }
        }
    } else {
        assert(r.subrange(0, r.len() as int) =~= r);
    }
}

/// `fix_punct` on collapsed text: the last character is kept, the result is
/// tidy, and apart from whitespace it only drops repeated closing marks.
proof fn lemma_fix_punct_shape(s: Seq<char>)
    requires
        only_space_whitespace(s),
        no_double_space(s),
    ensures
        s.len() > 0 ==> fix_punct(s).len() > 0 && fix_punct(s).last() == s.last(),
        s.len() == 0 ==> fix_punct(s).len() == 0,
        only_space_whitespace(fix_punct(s)),
        no_double_space(fix_punct(s)),
        punct_tidy(fix_punct(s)),
        without_whitespace(fix_punct(s)) == dedup_punct(without_whitespace(s)),
    decreases s.len(),
{
    if s.len() > 0 {
        let p = s.drop_last();
        let c = s.last();
        lemma_tidy_subrange(s, 0, s.len() - 1);
        assert(p == s.subrange(0, s.len() - 1));
        lemma_fix_punct_shape(p);
        let r = fix_punct(p);
        let f = fix_punct(s);
        assert(c == s[s.len() - 1]);
        if is_closing_punct(c) {
            let r2 = strip_trailing_spaces(r);
            lemma_strip_shape(r);
            let m = r2.len() as int;
            lemma_tidy_subrange(r, 0, m);
            assert(r =~= r2 + r.subrange(m, r.len() as int));
            lemma_without_whitespace_concat(r2, r.subrange(m, r.len() as int));
            assert forall|j: int| 0 <= j < r.subrange(m, r.len() as int).len() implies is_whitespace(
                #[trigger] r.subrange(m, r.len() as int)[j],
            ) by {
                assert(r.subrange(m, r.len() as int)[j] == r[m + j]);
            }
            lemma_without_whitespace_of_blanks(r.subrange(m, r.len() as int));
            assert(without_whitespace(r) =~= without_whitespace(r2));
            let ws = without_whitespace(s);
            assert(ws == without_whitespace(p).push(c));
            assert(ws.drop_last() =~= without_whitespace(p));
            assert(dedup_punct(ws) == if dedup_punct(without_whitespace(p)).len() > 0
                && dedup_punct(without_whitespace(p)).last() == c {
                dedup_punct(without_whitespace(p))
            } else {
                dedup_punct(without_whitespace(p)).push(c)
            });
            if r2.len() > 0 {
                assert(r2.last() == r2[m - 1]);
                assert(!is_whitespace(r2.last()));
                assert(r2.drop_last().push(r2.last()) =~= r2);
                assert(without_whitespace(r2) == without_whitespace(r2.drop_last()).push(r2.last()));
            }
            if !(r2.len() > 0 && r2.last() == c) {
                assert(f == r2.push(c));
                assert(f.drop_last() =~= r2);
                assert forall|i: int| 0 <= i < f.len() && is_whitespace(#[trigger] f[i]) implies f[i]
                    == ' ' by {
                    if i < r2.len() {
                        assert(f[i] == r2[i]);
                    }
                }
                assert forall|i: int, k: int|
                    #![trigger f[i], f[k]]
                    0 <= i && k == i + 1 && k < f.len() implies !(f[i] == ' ' && f[k] == ' ') by {
                    if k < r2.len() {
                        assert(f[i] == r2[i] && f[k] == r2[k]);
                    }
                }
                assert forall|i: int, k: int|
                    #![trigger f[i], f[k]]
                    0 <= i && k == i + 1 && k < f.len() && is_closing_punct(f[k]) implies f[i] != ' '
                        && f[i] != f[k] by {
                    if k < r2.len() {
                        assert(f[i] == r2[i] && f[k] == r2[k]);
                    } else {
                        assert(f[i] == r2.last());
                    }
                }
            }
        } else {
            assert(f == r.push(c));
            assert(f.drop_last() =~= r);
            let ws = without_whitespace(s);
            if !is_whitespace(c) {
                assert(ws == without_whitespace(p).push(c));
                assert(ws.drop_last() =~= without_whitespace(p));
                assert(dedup_punct(ws) == dedup_punct(without_whitespace(p)).push(c));
                assert(without_whitespace(f) == without_whitespace(r).push(c));
            } else {
                assert(without_whitespace(f) == without_whitespace(r));
            }
            if p.len() > 0 {
                assert(p.last() == s[s.len() - 2]);
                assert(r.last() == s[s.len() - 2]);
            }
            assert forall|i: int| 0 <= i < f.len() && is_whitespace(#[trigger] f[i]) implies f[i]
                == ' ' by {
                if i < r.len() {
                    assert(f[i] == r[i]);
                }
            }
            assert forall|i: int, k: int|
                #![trigger f[i], f[k]]
                0 <= i && k == i + 1 && k < f.len() implies !(f[i] == ' ' && f[k] == ' ') by {
                if k < r.len() {
                    assert(f[i] == r[i] && f[k] == r[k]);
                } else {
                    assert(f[i] == r.last());
                }
            }
            assert forall|i: int, k: int|
                #![trigger f[i], f[k]]
                0 <= i && k == i + 1 && k < f.len() && is_closing_punct(f[k]) implies f[i] != ' '
                    && f[i] != f[k] by {
                if k < r.len() {
                    assert(f[i] == r[i] && f[k] == r[k]);
                }
            }
        }
    }
}

/// What `normalize` makes of any text: no whitespace at either end, single
/// spaces as the only whitespace, no space before a closing punctuation mark
/// and no closing mark right after the same mark; and apart from whitespace
/// the text is the input with each repeated closing mark dropped.
pub proof fn lemma_normalize_shape(x: Seq<char>)
    ensures
        is_normalized(normalize(x)),
        without_whitespace(normalize(x)) == dedup_punct(without_whitespace(x)),
{
    let j = join_space(ws_words(x));
    lemma_collapse_shape(x);
    lemma_fix_punct_shape(j);
    let f = fix_punct(j);
    if j.len() > 0 {
        assert(f.last() == j.last());
    }
    let ab = lemma_trim_shape(f);
    let (a, b) = ab;
    let y = normalize(x);
    assert(y == f.subrange(a, b));
    lemma_tidy_subrange(f, a, b);
    let head = f.subrange(0, a);
    let tail = f.subrange(b, f.len() as int);
    assert(f =~= head + y + tail);
    lemma_without_whitespace_concat(head + y, tail);
    lemma_without_whitespace_concat(head, y);
    assert forall|i: int| 0 <= i < head.len() implies is_whitespace(#[trigger] head[i]) by {
        assert(head[i] == f[i]);
    }
    assert forall|i: int| 0 <= i < tail.len() implies is_whitespace(#[trigger] tail[i]) by {
        assert(tail[i] == f[b + i]);
    }
    lemma_without_whitespace_of_blanks(head);
    lemma_without_whitespace_of_blanks(tail);
    assert(without_whitespace(f) =~= without_whitespace(y));
    if y.len() > 0 {
        assert(y[0] == f[a]);
        assert(y.last() == f[b - 1]);
    }
}

/// Collapsing whitespace leaves text with single inner spaces as it is, but
/// for a trailing space.
proof fn lemma_collapse_of_spaced(y: Seq<char>)
    requires
        only_space_whitespace(y),
        no_double_space(y),
        y.len() > 0 ==> !is_whitespace(y[0]),
    ensures
        join_space(ws_words(y)) == if y.len() > 0 && is_whitespace(y.last()) {
            y.drop_last()
        } else {
            y
        },
    decreases y.len(),
{
    if y.len() > 0 {
        let p = y.drop_last();
        let c = y.last();
        lemma_tidy_subrange(y, 0, y.len() - 1);
        assert(p == y.subrange(0, y.len() - 1));
        if p.len() > 0 {
            assert(p[0] == y[0]);
        }
        lemma_collapse_of_spaced(p);
        lemma_ws_words_facts(p);
        lemma_join_space_empty(ws_words(p));
        let jp = join_space(ws_words(p));
        assert(c == y[y.len() - 1]);
        if p.len() > 0 {
            assert(p.last() == y[y.len() - 2]);
        }
        if is_whitespace(c) {
            assert(ws_words(y) == ws_words(p));
        } else if y.len() >= 2 && !is_whitespace(y[y.len() - 2]) {
            lemma_join_space_extend_last(ws_words(p), c);
            assert(p.push(c) =~= y);
        } else if p.len() == 0 {
            lemma_join_space_push(ws_words(p), seq![c]);
            assert(seq![c] =~= y);
        } else {
            assert(p.len() >= 2);
            lemma_join_space_push(ws_words(p), seq![c]);
            assert(p.drop_last() + seq![' '] + seq![c] =~= y);
        }
    }
}

proof fn lemma_fix_punct_of_tidy(y: Seq<char>)
    requires
        punct_tidy(y),
    ensures
        fix_punct(y) == y,
    decreases y.len(),
{
    if y.len() > 0 {
        let p = y.drop_last();
        let c = y.last();
        lemma_tidy_subrange(y, 0, y.len() - 1);
        assert(p == y.subrange(0, y.len() - 1));
        lemma_fix_punct_of_tidy(p);
        assert(c == y[y.len() - 1]);
        if p.len() > 0 {
            assert(p.last() == y[y.len() - 2]);
        }
        assert(p.push(c) =~= y);
    }
}

/// Normalized text is left as it is by `normalize`.
proof fn lemma_normalized_is_fixed(y: Seq<char>)
    requires
        is_normalized(y),
    ensures
        normalize(y) == y,
{
    lemma_collapse_of_spaced(y);
    lemma_fix_punct_of_tidy(y);
    if y.len() > 0 {
        assert(!is_whitespace(y[0]));
    }
}

/// Normalizing twice is normalizing once.
pub proof fn lemma_normalize_is_idempotent(x: Seq<char>)
    ensures
        normalize(normalize(x)) == normalize(x),
{
    lemma_normalize_shape(x);
    lemma_normalized_is_fixed(normalize(x));
}

proof fn lemma_word_texts_contains(toks: Seq<(bool, Seq<char>)>, k: int)
    requires
        0 <= k < toks.len(),
        toks[k].0,
    ensures
        word_texts(toks).contains(toks[k].1),
    decreases toks.len(),
{
    let p = toks.drop_last();
    if k < toks.len() - 1 {
        assert(p[k] == toks[k]);
        lemma_word_texts_contains(p, k);
        let i = choose|i: int| 0 <= i < word_texts(p).len() && word_texts(p)[i] == toks[k].1;
        if toks.last().0 {
            assert(word_texts(toks)[i] == word_texts(p)[i]);
        }
    } else {
        assert(word_texts(toks).last() == toks[k].1);
    }
}

/// Filtering is idempotent: filtering the filtered text again changes
/// nothing, since no blocklisted word is left and the text is already
/// normalized.
pub proof fn lemma_filter_is_idempotent(words: Set<Seq<char>>, text: Seq<char>)
    requires
        non_ascii_whitespace_is_not_alphanumeric(),
    ensures
        filter_text(words, filter_text(words, text)) == filter_text(words, text),
{
    if !(words =~= Set::empty()) {
        let r = filter_text(words, text);
        lemma_filter_removes_exactly_the_blocked_words(words, text);
        let tr = tokens(r);
        lemma_tokens_partition_text(r);
        assert(runs_wf(tr));
        lemma_words_of_runs(tr);
        assert forall|k: int|
            0 <= k < tr.len() && (#[trigger] tr[k]).0 implies !words.contains(
            to_lowercase(tr[k].1),
        ) by {
            lemma_word_texts_contains(tr, k);
            let i = choose|i: int| 0 <= i < word_texts(tr).len() && word_texts(tr)[i] == tr[k].1;
            assert(words_of(r)[i] == tr[k].1);
        }
        lemma_filter_without_blocked_words_only_normalizes(words, r);
        lemma_normalize_shape(concat_tokens(unblocked(words, tokens(text))));
        lemma_normalized_is_fixed(r);
    }
}

} // verus!
