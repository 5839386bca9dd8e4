//! Names for attached files: which name a new file gets in a directory that has others.
use vstd::prelude::*;
use vstd::string::*;
use crate::text::{self, decimal_text, same_text};

verus! {

/// How many numbered names are tried after the name itself.
pub const NAME_ATTEMPTS: u64 = 2001;

/// The characters after the last `/`.
pub open spec fn after_slash(s: Seq<char>) -> Seq<char>
    decreases s.len(),
{
    if s.len() == 0 || s.last() == '/' {
        Seq::empty()
    } else {
        after_slash(s.drop_last()).push(s.last())
    }
}

/// The last component of a path, when it names something: not the root, `.` or `..`.
pub open spec fn last_component(s: Seq<char>) -> Option<Seq<char>>
    decreases s.len(),
{
    if s.len() == 0 {
        None
    } else if s.last() == '/' {
        last_component(s.drop_last())
    } else if s.len() >= 2 && s.last() == '.' && s[s.len() - 2] == '/' {
        last_component(s.drop_last())
    } else {
        let c = after_slash(s);
        if c == seq!['.'] || c == seq!['.', '.'] {
            None
        } else {
            Some(c)
        }
    }
}

/// The position of the last `.`, or -1.
pub open spec fn last_dot(c: Seq<char>) -> int
    decreases c.len(),
{
    if c.len() == 0 {
        -1
    } else if c.last() == '.' {
        c.len() - 1
    } else {
        last_dot(c.drop_last())
    }
}

/// The stem and the extension of a path's last component, when it has both: what stands before
/// and after its last dot, unless that dot comes first.
pub open spec fn stem_and_extension(path: Seq<char>) -> Option<(Seq<char>, Seq<char>)> {
    match last_component(path) {
        Some(c) => if last_dot(c) > 0 {
            Some((c.take(last_dot(c)), c.skip(last_dot(c) + 1)))
        } else {
            None
        },
        None => None,
    }
}

/// The name of the `n`-th attempt: the name itself, then the name with the number before its
/// extension.
pub open spec fn attempt(original: Seq<char>, n: nat) -> Seq<char> {
    if n == 0 {
        original
    } else {
        match stem_and_extension(original) {
            Some((stem, ext)) => stem + seq![' ', '('] + text::decimal(n) + seq![')', '.'] + ext,
            None => original + seq![' ', '('] + text::decimal(n) + seq![')'],
        }
    }
}

/// The texts of a list.
pub open spec fn texts(names: Seq<String>) -> Seq<Seq<char>> {
    names.map_values(|name: String| name@)
}

/// Whether a name is in use, by a file that waits or by an item of the directory.
pub open spec fn in_use(
    waiting: Seq<Seq<char>>,
    items: Seq<Seq<char>>,
    name: Seq<char>,
) -> bool {
    waiting.contains(name) || items.contains(name)
}

/// The first attempt from the `n`-th on that is not in use.
pub open spec fn free_from(
    original: Seq<char>,
    waiting: Seq<Seq<char>>,
    items: Seq<Seq<char>>,
    n: nat,
) -> Option<Seq<char>>
    decreases NAME_ATTEMPTS + 1 - n,
{
    if n > NAME_ATTEMPTS {
        None
    } else if in_use(waiting, items, attempt(original, n)) {
        free_from(original, waiting, items, n + 1)
    } else {
        Some(attempt(original, n))
    }
}

/// A name that is found is not in use.
pub proof fn free_name_is_free(
    original: Seq<char>,
    waiting: Seq<Seq<char>>,
    items: Seq<Seq<char>>,
    n: nat,
)
    ensures
        match free_from(original, waiting, items, n) {
            Some(name) => !in_use(waiting, items, name),
            None => true,
        },
    decreases NAME_ATTEMPTS + 1 - n,
{
    if n <= NAME_ATTEMPTS && in_use(waiting, items, attempt(original, n)) {
        free_name_is_free(original, waiting, items, n + 1);
    }
}

/// Whether a list holds a name.
pub fn lists(names: &Vec<String>, name: &str) -> (r: bool)
    ensures
        r == texts(names@).contains(name@),
{
    let mut i: usize = 0;
    while i < names.len()
        invariant
            i <= names@.len(),
            forall|j: int| 0 <= j < i ==> #[trigger] texts(names@)[j] != name@,
        decreases names@.len() - i,
    {
        assert(texts(names@)[i as int] == names@[i as int]@);
        if same_text(names[i].as_str(), name) {
            return true;
        }
        i = i + 1;
    }
    false
}

proof fn lemma_after_slash(s: Seq<char>, from: int)
    requires
        0 <= from <= s.len(),
        forall|i: int| from <= i < s.len() ==> #[trigger] s[i] != '/',
        from > 0 ==> s[from - 1] == '/',
    ensures
        after_slash(s) == s.skip(from),
    decreases s.len(),
{
    if s.len() == 0 || s.last() == '/' {
        assert(s.skip(from) == Seq::<char>::empty());
    } else {
        let rest = s.drop_last();
        assert forall|i: int| from <= i < rest.len() implies #[trigger] rest[i] != '/' by {
            assert(rest[i] == s[i]);
        }
        if from == s.len() {
            assert(s[from - 1] == s.last());
        }
        lemma_after_slash(rest, from);
        assert(rest.skip(from).push(s.last()) == s.skip(from));
    }
}

/// The bounds of the last component in the path.
fn component_bounds(path: &str) -> (r: Option<(usize, usize)>)
    ensures
        match r {
            Some((from, to)) => from <= to <= path@.len() && last_component(path@) == Some(
                path@.subrange(from as int, to as int),
            ),
            None => last_component(path@) is None,
        },
{
    let n: usize = path.unicode_len();
    let mut to: usize = n;
    assert(path@.take(n as int) == path@);
    while to > 0 && (path.get_char(to - 1) == '/' || (to >= 2 && path.get_char(to - 1) == '.'
        && path.get_char(to - 2) == '/'))
        invariant
            n == path@.len(),
            to <= n,
            last_component(path@.take(to as int)) == last_component(path@),
        decreases to,
    {
        assert(path@.take(to as int).drop_last() == path@.take(to - 1));
        to = to - 1;
    }
    if to == 0 {
        return None;
    }
    let ghost s = path@.take(to as int);
    assert(s.last() == path@[to - 1]);
    assert(s.len() >= 2 ==> s[s.len() - 2] == path@[to - 2]);
    let mut from: usize = to;
    while from > 0 && path.get_char(from - 1) != '/'
        invariant
            n == path@.len(),
            s == path@.take(to as int),
            from <= to <= n,
            forall|i: int| from <= i < to ==> #[trigger] s[i] != '/',
        decreases from,
    {
        assert(s[from - 1] == path@[from - 1]);
        from = from - 1;
    }
    proof {
        lemma_after_slash(s, from as int);
        assert(s.skip(from as int) == path@.subrange(from as int, to as int));
    }
    let ghost c = path@.subrange(from as int, to as int);
    if to - from == 1 && path.get_char(from) == '.' {
        assert(c == seq!['.']);
        return None;
    }
    if to - from == 2 && path.get_char(from) == '.' && path.get_char(from + 1) == '.' {
        assert(c == seq!['.', '.']);
        return None;
    }
    assert(c != seq!['.']) by {
        if c == seq!['.'] {
            assert(c[0] == '.');
            assert(path@[from as int] == c[0]);
        }
    }
    assert(c != seq!['.', '.']) by {
        if c == seq!['.', '.'] {
            assert(c[0] == '.' && c[1] == '.');
            assert(path@[from as int] == c[0] && path@[from + 1] == c[1]);
        }
    }
    Some((from, to))
}

proof fn lemma_last_dot(c: Seq<char>, dot: int)
    requires
        -1 <= dot < c.len(),
        dot >= 0 ==> c[dot] == '.',
        forall|i: int| dot < i < c.len() ==> #[trigger] c[i] != '.',
    ensures
        last_dot(c) == dot,
    decreases c.len(),
{
    if c.len() > 0 {
        if c.last() == '.' {
            assert(c[c.len() - 1] == '.');
        } else {
            let rest = c.drop_last();
            assert forall|i: int| dot < i < rest.len() implies #[trigger] rest[i] != '.' by {
                assert(rest[i] == c[i]);
            }
            lemma_last_dot(rest, dot);
        }
    }
}

/// The name of the `n`-th attempt.
pub fn attempt_name(original: &str, n: u64) -> (r: String)
    ensures
        r@ == attempt(original@, n as nat),
{
    proof {
        reveal_strlit(" (");
        reveal_strlit(")");
        reveal_strlit(").");
        assert(" ("@ == seq![' ', '(']);
        assert(")"@ == seq![')']);
        assert(")."@ == seq![')', '.']);
    }
    if n == 0 {
        return original.to_owned();
    }
    let number = decimal_text(n);
    match part_bounds(original) {
        Some((from, dot, to)) => {
            let stem = original.substring_char(from, dot);
            let ext = original.substring_char(dot + 1, to);
            return stem.to_owned().concat(" (").concat(number.as_str()).concat(").").concat(ext);
        },
        None => {},
    }
    original.to_owned().concat(" (").concat(number.as_str()).concat(")")
}

/// The extension of a path's last component, where it has one.
pub open spec fn extension(path: Seq<char>) -> Option<Seq<char>> {
    match stem_and_extension(path) {
        Some((_, ext)) => Some(ext),
        None => None,
    }
}

/// The bounds of the stem and of the extension in the path.
fn part_bounds(path: &str) -> (r: Option<(usize, usize, usize)>)
    ensures
        match r {
            Some((from, dot, to)) => {
                &&& from <= dot < to <= path@.len()
                &&& stem_and_extension(path@) == Some(
                    (
                        path@.subrange(from as int, dot as int),
                        path@.subrange(dot + 1, to as int),
                    ),
                )
            },
            None => stem_and_extension(path@) is None,
        },
{
    match component_bounds(path) {
        Some((from, to)) => {
            let ghost c = path@.subrange(from as int, to as int);
            let mut dot: usize = to;
            while dot > from && path.get_char(dot - 1) != '.'
                invariant
                    from <= dot <= to <= path@.len(),
                    c == path@.subrange(from as int, to as int),
                    forall|i: int| dot - from <= i < c.len() ==> #[trigger] c[i] != '.',
                decreases dot,
            {
                assert(c[dot - 1 - from] == path@[dot - 1]);
                dot = dot - 1;
            }
            proof {
                if dot > from {
                    assert(c[dot - 1 - from] == path@[dot - 1]);
                }
                lemma_last_dot(c, dot - 1 - from);
            }
            if dot > from && dot - 1 > from {
                assert(path@.subrange(from as int, dot - 1) == c.take(dot - 1 - from));
                assert(path@.subrange(dot as int, to as int) == c.skip(dot - from));
                Some((from, dot - 1, to))
            } else {
                None
            }
        },
        None => None,
    }
}

/// The extension of a path's last component, where it has one.
pub fn extension_of(path: &str) -> (r: Option<String>)
    ensures
        match r {
            Some(ext) => extension(path@) == Some(ext@),
            None => extension(path@) is None,
        },
{
    match part_bounds(path) {
        Some((_, dot, to)) => Some(path.substring_char(dot + 1, to).to_owned()),
        None => None,
    }
}

/// What the search for a free name came to.
pub enum NameChoice {
    /// A name that is not in use.
    Free(String),
    /// Every attempt is in use. Holds the last one.
    Exhausted(String),
}

/// The first attempt that is not in use.
pub fn choose_name(original: &str, waiting: &Vec<String>, items: &Vec<String>) -> (r: NameChoice)
    ensures
        match free_from(original@, texts(waiting@), texts(items@), 0) {
            Some(name) => r matches NameChoice::Free(s) && s@ == name,
            None => r matches NameChoice::Exhausted(s) && s@ == attempt(
                original@,
                NAME_ATTEMPTS as nat,
            ),
        },
{
    let mut interval: u64 = 0;
    let mut name = original.to_owned();
    while lists(waiting, name.as_str()) || lists(items, name.as_str())
        invariant
            interval <= NAME_ATTEMPTS,
            name@ == attempt(original@, interval as nat),
            free_from(original@, texts(waiting@), texts(items@), interval as nat) == free_from(
                original@,
                texts(waiting@),
                texts(items@),
                0,
            ),
        decreases NAME_ATTEMPTS - interval,
    {
        if interval == NAME_ATTEMPTS {
            assert(free_from(original@, texts(waiting@), texts(items@), interval as nat + 1) is None);
            return NameChoice::Exhausted(name);
        }
        interval = interval + 1;
        name = attempt_name(original, interval);
    }
    NameChoice::Free(name)
}

/// The last component of a path, when it names something.
pub fn file_name_of(path: &str) -> (r: Option<String>)
    ensures
        match r {
            Some(name) => last_component(path@) == Some(name@),
            None => last_component(path@) is None,
        },
{
    match component_bounds(path) {
        Some((from, to)) => Some(path.substring_char(from, to).to_owned()),
        None => None,
    }
}

/// The last component of a path is what stands behind its last slash. Slashes at the end, and a dot
/// behind one, say nothing.
pub proof fn last_component_stands_behind_the_last_slash(dir: Seq<char>, name: Seq<char>)
    requires
        name.len() > 0,
        forall|i: int| 0 <= i < name.len() ==> #[trigger] name[i] != '/',
        name != seq!['.'],
        name != seq!['.', '.'],
    ensures
        last_component(name) == Some(name),
        last_component(dir + seq!['/'] + name) == Some(name),
        last_component(dir + seq!['/']) == last_component(dir),
        last_component(dir + seq!['/', '.']) == last_component(dir),
{
    assert(name.skip(0) == name);
    lemma_named(name, 0, name);
    assert((dir + seq!['/'] + name).skip((dir.len() + 1) as int) == name);
    lemma_named(dir + seq!['/'] + name, (dir.len() + 1) as int, name);
    let slashed = dir + seq!['/'];
    assert(slashed.drop_last() == dir);
    let dotted = dir + seq!['/', '.'];
    assert(dotted.drop_last() == slashed);
    assert(dotted[dotted.len() - 2] == '/');
}

proof fn lemma_named(s: Seq<char>, from: int, name: Seq<char>)
    requires
        0 <= from < s.len(),
        s.skip(from) == name,
        from > 0 ==> s[from - 1] == '/',
        forall|i: int| 0 <= i < name.len() ==> #[trigger] name[i] != '/',
        name != seq!['.'],
        name != seq!['.', '.'],
    ensures
        last_component(s) == Some(name),
{
    assert forall|i: int| from <= i < s.len() implies #[trigger] s[i] != '/' by {
        assert(name[i - from] == s[i]);
    }
    lemma_after_slash(s, from);
    assert(name.last() == s.last());
    assert(s.last() != '/') by {
        assert(s[s.len() - 1] != '/');
    }
    if s.len() >= 2 && s.last() == '.' && s[s.len() - 2] == '/' {
        if name.len() >= 2 {
            assert(name[name.len() - 2] == s[s.len() - 2]);
        } else {
            assert(name == seq!['.']);
        }
    }
}

/// The extension of a name is what stands behind its last dot, where something stands before it. A name
/// without a dot, or with one at its beginning alone, has none.
pub proof fn extension_stands_behind_the_last_dot(stem: Seq<char>, ext: Seq<char>)
    requires
        forall|i: int| 0 <= i < stem.len() ==> #[trigger] stem[i] != '/',
        forall|i: int| 0 <= i < ext.len() ==> #[trigger] ext[i] != '/' && ext[i] != '.',
    ensures
        stem.len() > 0 && stem + seq!['.'] + ext != seq!['.', '.'] ==> stem_and_extension(
            stem + seq!['.'] + ext,
        ) == Some((stem, ext)) && extension(stem + seq!['.'] + ext) == Some(ext),
        ext.len() > 0 ==> extension(ext) is None,
        ext.len() > 0 ==> extension(seq!['.'] + ext) is None,
{
    let c = stem + seq!['.'] + ext;
    if stem.len() > 0 && c != seq!['.', '.'] {
        assert forall|i: int| 0 <= i < c.len() implies #[trigger] c[i] != '/' by {
            if i < stem.len() {
                assert(c[i] == stem[i]);
            } else if i > stem.len() {
                assert(c[i] == ext[i - stem.len() - 1]);
            }
        }
        assert(c != seq!['.']);
        last_component_stands_behind_the_last_slash(Seq::empty(), c);
        assert forall|i: int| stem.len() < i < c.len() implies #[trigger] c[i] != '.' by {
            assert(c[i] == ext[i - stem.len() - 1]);
        }
        assert(c[stem.len() as int] == '.');
        lemma_last_dot(c, stem.len() as int);
        assert(c.take(stem.len() as int) == stem);
        assert(c.skip((stem.len() + 1) as int) == ext);
    }
    if ext.len() > 0 {
        assert(ext[0] != '.');
        last_component_stands_behind_the_last_slash(Seq::empty(), ext);
        lemma_last_dot(ext, -1);
        let hidden = seq!['.'] + ext;
        assert(hidden[1] == ext[0]);
        assert forall|i: int| 0 <= i < hidden.len() implies #[trigger] hidden[i] != '/' by {
            if i > 0 {
                assert(hidden[i] == ext[i - 1]);
            }
        }
        last_component_stands_behind_the_last_slash(Seq::empty(), hidden);
        assert forall|i: int| 0 < i < hidden.len() implies #[trigger] hidden[i] != '.' by {
            assert(hidden[i] == ext[i - 1]);
        }
        lemma_last_dot(hidden, 0);
    }
}

/// The numbered names of a file differ from each other. The number stands in brackets before the
/// extension, or at the end where there is none.
pub proof fn numbered_names_differ(original: Seq<char>, m: nat, n: nat)
    requires
        0 < m,
        0 < n,
    ensures
        attempt(original, 0) == original,
        attempt(original, m) == attempt(original, n) ==> m == n,
        stem_and_extension(original) matches Some((stem, ext)) ==> attempt(original, m) == stem
            + seq![' ', '('] + text::decimal(m) + seq![')', '.'] + ext,
        stem_and_extension(original) is None ==> attempt(original, m) == original + seq![' ', '(']
            + text::decimal(m) + seq![')'],
{
    text::decimal_reads_back(m);
    text::decimal_reads_back(n);
    if attempt(original, m) == attempt(original, n) {
        let (head, tail) = match stem_and_extension(original) {
            Some((stem, ext)) => (stem + seq![' ', '('], seq![')', '.'] + ext),
            None => (original + seq![' ', '('], seq![')']),
        };
        let a = text::decimal(m);
        let b = text::decimal(n);
        assert(attempt(original, m) == head + a + tail);
        assert(attempt(original, n) == head + b + tail);
        assert((head + a + tail).len() == head.len() + a.len() + tail.len());
        assert((head + b + tail).len() == head.len() + b.len() + tail.len());
        assert(a.len() == b.len());
        assert forall|i: int| 0 <= i < a.len() implies a[i] == b[i] by {
            assert((head + a + tail)[head.len() + i] == a[i]);
            assert((head + b + tail)[head.len() + i] == b[i]);
        }
        assert(a == b);
    }
}

/// The name that a file gets is the first of its own name and the numbered ones, up to 2001, that is not
/// in use. It gets none only where all of them are.
pub proof fn first_free_name_is_chosen(
    original: Seq<char>,
    waiting: Seq<Seq<char>>,
    items: Seq<Seq<char>>,
    k: nat,
)
    requires
        k <= 2001,
        !waiting.contains(attempt(original, k)),
        !items.contains(attempt(original, k)),
        forall|j: nat|
            j < k ==> waiting.contains(#[trigger] attempt(original, j)) || items.contains(
                attempt(original, j),
            ),
    ensures
        free_from(original, waiting, items, 0) == Some(attempt(original, k)),
{
    lemma_free(original, waiting, items, 0, k);
}

proof fn lemma_free(
    original: Seq<char>,
    waiting: Seq<Seq<char>>,
    items: Seq<Seq<char>>,
    n: nat,
    k: nat,
)
    requires
        n <= k <= 2001,
        !waiting.contains(attempt(original, k)),
        !items.contains(attempt(original, k)),
        forall|j: nat|
            j < k ==> waiting.contains(#[trigger] attempt(original, j)) || items.contains(
                attempt(original, j),
            ),
    ensures
        free_from(original, waiting, items, n) == Some(attempt(original, k)),
    decreases k - n,
{
    if n < k {
        assert(waiting.contains(attempt(original, n)) || items.contains(attempt(original, n)));
        lemma_free(original, waiting, items, n + 1, k);
    }
}

/// A file gets no name only where its own and all numbered ones are in use.
pub proof fn no_name_is_left(
    original: Seq<char>,
    waiting: Seq<Seq<char>>,
    items: Seq<Seq<char>>,
    n: nat,
    k: nat,
)
    requires
        free_from(original, waiting, items, n) is None,
        n <= k <= 2001,
    ensures
        waiting.contains(attempt(original, k)) || items.contains(attempt(original, k)),
    decreases k - n,
{
    if n < k {
        no_name_is_left(original, waiting, items, n + 1, k);
    }
}

} // verus!
