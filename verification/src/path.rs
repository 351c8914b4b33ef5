//! File names in paths, which are byte strings as the operating system hands them over.
use crate::text::split;
use vstd::prelude::*;
use vstd::slice::slice_subrange;

verus! {

/// The byte of `/`.
pub const SLASH: u8 = 0x2f;

/// The byte of `\`.
pub const BACKSLASH: u8 = 0x5c;

/// The byte of `.`.
pub const DOT: u8 = 0x2e;

/// The byte of `:`.
pub const COLON: u8 = 0x3a;

/// The byte of `?`.
pub const QUESTION_MARK: u8 = 0x3f;

/// How a system reads its paths.
#[derive(Clone, Copy, Debug)]
pub enum PathStyle {
    /// `/` stands between the components.
    Unix,
    /// `\` or `/` stands between the components, and a prefix such as a drive may come first.
    Windows,
}

/// Whether a byte stands between the components of a path.
pub open spec fn separates(style: PathStyle, byte: u8) -> bool {
    match style {
        PathStyle::Unix => byte == SLASH,
        PathStyle::Windows => byte == SLASH || byte == BACKSLASH,
    }
}

/// Whether a byte ends a component of the prefix of a Windows path. In a verbatim path only `\`
/// does.
pub open spec fn ends_component(byte: u8, verbatim: bool) -> bool {
    byte == BACKSLASH || (byte == SLASH && !verbatim)
}

/// The length of the component at the start of some bytes.
pub open spec fn component_len(bytes: Seq<u8>, verbatim: bool) -> int
    decreases bytes.len(),
{
    if bytes.len() == 0 || ends_component(bytes[0], verbatim) {
        0
    } else {
        1 + component_len(bytes.skip(1), verbatim)
    }
}

/// The length of the component behind the one at the start of some bytes, or zero where none
/// follows.
pub open spec fn second_component_len(bytes: Seq<u8>, verbatim: bool) -> int {
    let first = component_len(bytes, verbatim);
    if first < bytes.len() {
        component_len(bytes.skip(first + 1), verbatim)
    } else {
        0
    }
}

/// Whether some bytes start with a drive, a letter and a colon.
pub open spec fn has_drive(bytes: Seq<u8>) -> bool {
    &&& bytes.len() >= 2
    &&& 0x41 <= bytes[0] <= 0x5a || 0x61 <= bytes[0] <= 0x7a
    &&& bytes[1] == COLON
}

/// Whether a path starts with two separators.
pub open spec fn starts_with_two(path: Seq<u8>) -> bool {
    &&& path.len() >= 2
    &&& separates(PathStyle::Windows, path[0])
    &&& separates(PathStyle::Windows, path[1])
}

/// Whether a Windows path is verbatim: it starts with `\\?\`.
pub open spec fn is_verbatim(path: Seq<u8>) -> bool {
    &&& path.len() >= 4
    &&& path[0] == BACKSLASH
    &&& path[1] == BACKSLASH
    &&& path[2] == QUESTION_MARK
    &&& path[3] == BACKSLASH
}

/// Whether what follows `\\?\` names a server and a share: it starts with `UNC` and a separator.
pub open spec fn names_share(bytes: Seq<u8>) -> bool {
    &&& bytes.len() >= 4
    &&& bytes[0] == 0x55
    &&& bytes[1] == 0x4e
    &&& bytes[2] == 0x43
    &&& separates(PathStyle::Windows, bytes[3])
}

/// The length of the prefix of a verbatim path, by what follows `\\?\`: a server and a share
/// behind `UNC\`, a drive that stands alone in its component, or some other component.
pub open spec fn verbatim_prefix_len(bytes: Seq<u8>) -> int {
    if names_share(bytes) {
        let server = component_len(bytes.skip(4), true);
        let share = second_component_len(bytes.skip(4), true);
        8 + server + (if share > 0 {
            1 + share
        } else {
            0
        })
    } else if has_drive(bytes) && (bytes.len() == 2 || separates(PathStyle::Windows, bytes[2])) {
        6
    } else {
        4 + component_len(bytes, true)
    }
}

/// The length of the prefix of a Windows path: that of a verbatim path, a device behind `\\.\`, a
/// server and a share behind `\\`, a drive, or nothing.
pub open spec fn prefix_len(path: Seq<u8>) -> int {
    if !starts_with_two(path) {
        if has_drive(path) {
            2
        } else {
            0
        }
    } else if is_verbatim(path) {
        verbatim_prefix_len(path.skip(4))
    } else if path.len() >= 4 && path[2] == DOT && separates(PathStyle::Windows, path[3]) {
        4 + component_len(path.skip(4), false)
    } else {
        let server = component_len(path.skip(2), false);
        let share = second_component_len(path.skip(2), false);
        if server > 0 && share > 0 {
            2 + server + 1 + share
        } else {
            0
        }
    }
}

/// `bytes` with `\` for every `/`.
pub open spec fn unified(bytes: Seq<u8>) -> Seq<u8> {
    Seq::new(
        bytes.len(),
        |i: int|
            if bytes[i] == SLASH {
                BACKSLASH
            } else {
                bytes[i]
            },
    )
}

/// What follows the prefix of a Windows path, with `\` between all its components. In a verbatim
/// path a `/` is no separator, except directly behind the prefix.
pub open spec fn windows_body(path: Seq<u8>) -> Seq<u8> {
    let rest = path.skip(prefix_len(path));
    if !is_verbatim(path) {
        unified(rest)
    } else if rest.len() > 0 && separates(PathStyle::Windows, rest[0]) {
        rest.skip(1)
    } else {
        rest
    }
}

/// The pieces of a path between its separators, without the prefix.
pub open spec fn pieces_of(style: PathStyle, path: Seq<u8>) -> Seq<Seq<u8>> {
    match style {
        PathStyle::Unix => split(path, SLASH),
        PathStyle::Windows => split(windows_body(path), BACKSLASH),
    }
}

/// Whether a single dot counts as a component of a path.
pub open spec fn dot_counts(style: PathStyle, path: Seq<u8>) -> bool {
    style is Windows && is_verbatim(path)
}

/// The last piece that is not empty, nor a single dot where that does not count.
pub open spec fn last_component(pieces: Seq<Seq<u8>>, dot_counts: bool) -> Option<Seq<u8>>
    decreases pieces.len(),
{
    if pieces.len() == 0 {
        None
    } else if pieces.last().len() == 0 || (!dot_counts && pieces.last() == seq![DOT]) {
        last_component(pieces.drop_last(), dot_counts)
    } else {
        Some(pieces.last())
    }
}

/// The file name of a path: its last component, where empty components do not count, nor does `.`
/// unless the path is verbatim. A path without components has none, nor has one that ends in `..`
/// or in a `.` that counts.
pub open spec fn file_name(style: PathStyle, path: Seq<u8>) -> Option<Seq<u8>> {
    match last_component(pieces_of(style, path), dot_counts(style, path)) {
        Some(component) if component != seq![DOT] && component != seq![DOT, DOT] => Some(component),
        _ => None,
    }
}

/// The place of the last `byte`, or -1 where there is none.
pub open spec fn last_place(bytes: Seq<u8>, byte: u8) -> int
    decreases bytes.len(),
{
    if bytes.len() == 0 {
        -1
    } else if bytes.last() == byte {
        bytes.len() - 1
    } else {
        last_place(bytes.drop_last(), byte)
    }
}

/// A file name without its extension: what stands before the last `.`, unless there is none or it
/// is the first byte.
pub open spec fn stem_of(name: Seq<u8>) -> Seq<u8> {
    let dot = last_place(name, DOT);
    if dot <= 0 {
        name
    } else {
        name.take(dot)
    }
}

/// The file name of a path without its extension.
pub open spec fn file_stem(style: PathStyle, path: Seq<u8>) -> Option<Seq<u8>> {
    match file_name(style, path) {
        Some(name) => Some(stem_of(name)),
        None => None,
    }
}

proof fn lemma_last_place(bytes: Seq<u8>, byte: u8)
    ensures
        -1 <= last_place(bytes, byte) < bytes.len(),
        last_place(bytes, byte) >= 0 ==> bytes[last_place(bytes, byte)] == byte,
        forall|i: int| last_place(bytes, byte) < i < bytes.len() ==> bytes[i] != byte,
    decreases bytes.len(),
{
    if bytes.len() > 0 && bytes.last() != byte {
        lemma_last_place(bytes.drop_last(), byte);
        assert forall|i: int| last_place(bytes, byte) < i < bytes.len() implies bytes[i] != byte by {
            if i < bytes.len() - 1 {
                assert(bytes[i] == bytes.drop_last()[i]);
            }
        }
    }
}

/// The last piece of a split stands behind the last separator; what stands before that one is
/// split into the others.
proof fn lemma_split_last(bytes: Seq<u8>, byte: u8)
    ensures
        ({
            let place = last_place(bytes, byte);
            &&& -1 <= place < bytes.len()
            &&& split(bytes, byte).len() > 0
            &&& split(bytes, byte).last() == bytes.skip(place + 1)
            &&& split(bytes, byte).drop_last() == (if place < 0 {
                Seq::empty()
            } else {
                split(bytes.take(place), byte)
            })
        }),
    decreases bytes.len(),
{
    let place = last_place(bytes, byte);
    lemma_last_place(bytes, byte);
    if bytes.len() > 0 {
        let before = split(bytes.drop_last(), byte);
        lemma_split_last(bytes.drop_last(), byte);
        if bytes.last() == byte {
            assert(split(bytes, byte).drop_last() =~= before);
            assert(bytes.take(place) =~= bytes.drop_last());
        } else {
            assert(split(bytes, byte).drop_last() =~= before.drop_last());
            assert(bytes.skip(place + 1) =~= bytes.drop_last().skip(place + 1).push(bytes.last()));
            if place >= 0 {
                assert(bytes.drop_last().take(place) =~= bytes.take(place));
            }
        }
    }
    assert(split(bytes, byte).last() =~= bytes.skip(place + 1));
    assert(split(bytes, byte).drop_last() =~= (if place < 0 {
        Seq::empty()
    } else {
        split(bytes.take(place), byte)
    }));
}

proof fn lemma_component_len(bytes: Seq<u8>, verbatim: bool)
    ensures
        0 <= component_len(bytes, verbatim) <= bytes.len(),
        forall|i: int|
            0 <= i < component_len(bytes, verbatim) ==> !ends_component(bytes[i], verbatim),
        component_len(bytes, verbatim) < bytes.len() ==> ends_component(
            bytes[component_len(bytes, verbatim)],
            verbatim,
        ),
    decreases bytes.len(),
{
    if bytes.len() > 0 && !ends_component(bytes[0], verbatim) {
        let rest = bytes.skip(1);
        lemma_component_len(rest, verbatim);
        assert forall|i: int| 0 <= i < component_len(bytes, verbatim) implies !ends_component(
            bytes[i],
            verbatim,
        ) by {
            if i > 0 {
                assert(bytes[i] == rest[i - 1]);
            }
        }
    }
}

proof fn lemma_second_component_len(bytes: Seq<u8>, verbatim: bool)
    ensures
        0 <= component_len(bytes, verbatim),
        0 <= second_component_len(bytes, verbatim),
        second_component_len(bytes, verbatim) > 0 ==> component_len(bytes, verbatim) + 1
            + second_component_len(bytes, verbatim) <= bytes.len(),
        component_len(bytes, verbatim) <= bytes.len(),
{
    lemma_component_len(bytes, verbatim);
    let first = component_len(bytes, verbatim);
    if first < bytes.len() {
        lemma_component_len(bytes.skip(first + 1), verbatim);
    }
}

proof fn lemma_prefix_len(path: Seq<u8>)
    ensures
        0 <= prefix_len(path) <= path.len(),
{
    if starts_with_two(path) {
        if is_verbatim(path) {
            let rest = path.skip(4);
            lemma_component_len(rest, true);
            if names_share(rest) {
                lemma_second_component_len(rest.skip(4), true);
            }
        } else {
            lemma_second_component_len(path.skip(2), false);
            if path.len() >= 4 {
                lemma_component_len(path.skip(4), false);
            }
        }
    }
}

/// One more than the last place of `byte`, or zero where there is none.
fn after_last(bytes: &[u8], byte: u8) -> (result: usize)
    ensures
        result == last_place(bytes@, byte) + 1,
        result <= bytes@.len(),
{
    let mut end: usize = bytes.len();
    assert(bytes@.take(end as int) =~= bytes@);
    while 0 < end && bytes[end - 1] != byte
        invariant
            end <= bytes@.len(),
            last_place(bytes@, byte) == last_place(bytes@.take(end as int), byte),
        decreases end,
    {
        assert(bytes@.take(end as int).drop_last() =~= bytes@.take(end - 1));
        end = end - 1;
    }
    end
}

fn separator(byte: u8) -> (result: bool)
    ensures
        result == separates(PathStyle::Windows, byte),
{
    byte == SLASH || byte == BACKSLASH
}

/// Measures the component that starts at `start`.
fn measure(path: &[u8], start: usize, verbatim: bool) -> (result: usize)
    requires
        start <= path@.len(),
    ensures
        result == component_len(path@.skip(start as int), verbatim),
        start + result <= path@.len(),
{
    let mut at: usize = start;
    while at < path.len() && !(path[at] == BACKSLASH || (path[at] == SLASH && !verbatim))
        invariant
            start <= at <= path@.len(),
            component_len(path@.skip(start as int), verbatim) == at - start + component_len(
                path@.skip(at as int),
                verbatim,
            ),
        decreases path@.len() - at,
    {
        assert(path@.skip(at as int).skip(1) =~= path@.skip(at + 1));
        at = at + 1;
    }
    at - start
}

/// Measures the component behind the one of length `first` that starts at `start`.
fn measure_second(path: &[u8], start: usize, first: usize, verbatim: bool) -> (result: usize)
    requires
        start <= path@.len(),
        first == component_len(path@.skip(start as int), verbatim),
        start + first <= path@.len(),
    ensures
        result == second_component_len(path@.skip(start as int), verbatim),
        result > 0 ==> start + first + 1 + result <= path@.len(),
{
    if first < path.len() - start {
        assert(path@.skip(start as int).skip(first + 1) =~= path@.skip(start + first + 1));
        measure(path, start + first + 1, verbatim)
    } else {
        0
    }
}

fn drive(path: &[u8], start: usize) -> (result: bool)
    requires
        start <= path@.len(),
    ensures
        result == has_drive(path@.skip(start as int)),
{
    path.len() - start >= 2 && ((0x41 <= path[start] && path[start] <= 0x5a) || (0x61 <= path[start]
        && path[start] <= 0x7a)) && path[start + 1] == COLON
}

fn verbatim_path(path: &[u8]) -> (result: bool)
    ensures
        result == is_verbatim(path@),
{
    path.len() >= 4 && path[0] == BACKSLASH && path[1] == BACKSLASH && path[2] == QUESTION_MARK
        && path[3] == BACKSLASH
}

/// Measures the prefix of a verbatim path.
fn measure_verbatim_prefix(path: &[u8]) -> (result: usize)
    requires
        path@.len() >= 4,
    ensures
        result == verbatim_prefix_len(path@.skip(4)),
        result <= path@.len(),
{
    if path.len() - 4 >= 4 && path[4] == 0x55 && path[5] == 0x4e && path[6] == 0x43 && separator(
        path[7],
    ) {
        assert(path@.skip(4).skip(4) =~= path@.skip(8));
        let server: usize = measure(path, 8, true);
        let share: usize = measure_second(path, 8, server, true);
        if share > 0 {
            8 + server + 1 + share
        } else {
            8 + server
        }
    } else if drive(path, 4) && (path.len() - 4 == 2 || separator(path[6])) {
        6
    } else {
        4 + measure(path, 4, true)
    }
}

/// Measures the prefix of a Windows path.
fn measure_prefix(path: &[u8]) -> (result: usize)
    ensures
        result == prefix_len(path@),
        result <= path@.len(),
{
    if !(path.len() >= 2 && separator(path[0]) && separator(path[1])) {
        assert(path@.skip(0) =~= path@);
        if drive(path, 0) {
            2
        } else {
            0
        }
    } else if verbatim_path(path) {
        measure_verbatim_prefix(path)
    } else if path.len() >= 4 && path[2] == DOT && separator(path[3]) {
        4 + measure(path, 4, false)
    } else {
        let server: usize = measure(path, 2, false);
        let share: usize = measure_second(path, 2, server, false);
        if server > 0 && share > 0 {
            2 + server + 1 + share
        } else {
            0
        }
    }
}

/// Takes the prefix off a Windows path and writes `\` between its components.
fn take_windows_body(path: &[u8]) -> (result: Vec<u8>)
    ensures
        result@ == windows_body(path@),
{
    let verbatim: bool = verbatim_path(path);
    let prefix: usize = measure_prefix(path);
    let ghost rest = path@.skip(prefix as int);
    let start: usize = if verbatim && prefix < path.len() && separator(path[prefix]) {
        prefix + 1
    } else {
        prefix
    };
    let ghost behind = path@.skip(start as int);
    let ghost whole = if verbatim {
        behind
    } else {
        unified(behind)
    };
    assert(start == prefix + 1 ==> behind =~= rest.skip(1));
    assert(whole == windows_body(path@));
    let mut body: Vec<u8> = Vec::new();
    let mut at: usize = start;
    while at < path.len()
        invariant
            start <= at <= path@.len(),
            behind == path@.skip(start as int),
            whole == (if verbatim {
                behind
            } else {
                unified(behind)
            }),
            body@ =~= whole.take(at - start),
        decreases path@.len() - at,
    {
        let byte: u8 = if !verbatim && path[at] == SLASH {
            BACKSLASH
        } else {
            path[at]
        };
        assert(behind[at - start] == path@[at as int]);
        body.push(byte);
        at = at + 1;
    }
    assert(body@ =~= whole);
    body
}

/// The last component of some bytes, unless it is a dot or two, without its extension.
fn last_stem(bytes: &[u8], separator: u8, dot_counts: bool) -> (result: Option<&[u8]>)
    ensures
        match (last_component(split(bytes@, separator), dot_counts), result) {
            (Some(component), Some(stem)) => {
                &&& component != seq![DOT]
                &&& component != seq![DOT, DOT]
                &&& stem@ == stem_of(component)
            },
            (Some(component), None) => component == seq![DOT] || component == seq![DOT, DOT],
            (None, stem) => stem is None,
        },
{
    let mut rest: &[u8] = bytes;
    loop
        invariant
            last_component(split(bytes@, separator), dot_counts) == last_component(
                split(rest@, separator),
                dot_counts,
            ),
        decreases rest@.len(),
    {
        let start: usize = after_last(rest, separator);
        let component: &[u8] = slice_subrange(rest, start, rest.len());
        proof {
            lemma_split_last(rest@, separator);
            assert(component@ =~= rest@.skip(start as int));
            assert(component@.len() == 1 && component@[0] == DOT ==> component@ =~= seq![DOT]);
            assert(component@.len() == 2 && component@[0] == DOT && component@[1] == DOT
                ==> component@ =~= seq![DOT, DOT]);
        }
        let dot: bool = component.len() == 1 && component[0] == DOT;
        if component.len() == 0 || (dot && !dot_counts) {
            if start == 0 {
                assert(last_component(split(rest@, separator).drop_last(), dot_counts) is None);
                return None;
            }
            let shorter: &[u8] = slice_subrange(rest, 0, start - 1);
            assert(shorter@ =~= rest@.take(start - 1));
            rest = shorter;
        } else if dot || (component.len() == 2 && component[0] == DOT && component[1] == DOT) {
            return None;
        } else {
            let after_dot: usize = after_last(component, DOT);
            if after_dot <= 1 {
                return Some(component);
            }
            let stem: &[u8] = slice_subrange(component, 0, after_dot - 1);
            assert(stem@ =~= component@.take(after_dot - 1));
            return Some(stem);
        }
    }
}

/// Tells whether two rows of bytes are the same.
pub fn same_bytes(left: &[u8], right: &[u8]) -> (result: bool)
    ensures
        result == (left@ == right@),
{
    if left.len() != right.len() {
        return false;
    }
    let mut at: usize = 0;
    while at < left.len()
        invariant
            left@.len() == right@.len(),
            at <= left@.len(),
            forall|i: int| 0 <= i < at ==> left@[i] == right@[i],
        decreases left@.len() - at,
    {
        if left[at] != right[at] {
            return false;
        }
        at = at + 1;
    }
    assert(left@ =~= right@);
    true
}

/// Tells whether a path has a file name that is `stem` when its extension is left out.
pub fn has_stem(style: PathStyle, path: &[u8], stem: &[u8]) -> (result: bool)
    ensures
        result == (file_stem(style, path@) == Some(stem@)),
{
    match style {
        PathStyle::Unix => match last_stem(path, SLASH, false) {
            Some(found) => same_bytes(found, stem),
            None => false,
        },
        PathStyle::Windows => {
            let body: Vec<u8> = take_windows_body(path);
            match last_stem(body.as_slice(), BACKSLASH, verbatim_path(path)) {
                Some(found) => same_bytes(found, stem),
                None => false,
            }
        },
    }
}

/// The last place of a byte is the one that holds it with no other behind.
pub proof fn lemma_last_place_is(bytes: Seq<u8>, byte: u8, place: int)
    requires
        -1 <= place < bytes.len(),
        place >= 0 ==> bytes[place] == byte,
        forall|i: int| place < i < bytes.len() ==> bytes[i] != byte,
    ensures
        last_place(bytes, byte) == place,
{
    lemma_last_place(bytes, byte);
    let found = last_place(bytes, byte);
    if found < place {
        assert(bytes[place] != byte);
    }
}

/// Whether some bytes can be a component with a file name: they hold no separator, and are not
/// empty, nor one or two dots.
pub open spec fn nameable(style: PathStyle, name: Seq<u8>) -> bool {
    &&& forall|i: int| 0 <= i < name.len() ==> !separates(style, #[trigger] name[i])
    &&& name.len() > 0
    &&& name != seq![DOT]
    &&& name != seq![DOT, DOT]
}

/// Whether `separator` separates `name` from `directory`: on Windows it does so where it stands
/// behind the prefix of the path, and in a verbatim path `/` only where it stands directly there.
pub open spec fn lies_in(
    style: PathStyle,
    directory: Seq<u8>,
    separator: u8,
    name: Seq<u8>,
) -> bool {
    let path = directory.push(separator) + name;
    &&& separates(style, separator)
    &&& style is Windows ==> if is_verbatim(path) && separator == SLASH {
        prefix_len(path) == directory.len()
    } else {
        prefix_len(path) <= directory.len()
    }
}

/// Splitting at the last separator leaves what stands behind it as the last piece.
proof fn lemma_last_piece(directory: Seq<u8>, separator: u8, name: Seq<u8>, dot_counts: bool)
    requires
        forall|i: int| 0 <= i < name.len() ==> name[i] != separator,
        name.len() > 0,
        name != seq![DOT],
    ensures
        last_component(split(directory.push(separator) + name, separator), dot_counts) == Some(
            name,
        ),
        last_component(split(name, separator), dot_counts) == Some(name),
{
    let path = directory.push(separator) + name;
    lemma_last_place_is(path, separator, directory.len() as int);
    lemma_split_last(path, separator);
    assert(path.skip(directory.len() as int + 1) =~= name);
    lemma_last_place_is(name, separator, -1);
    lemma_split_last(name, separator);
    assert(name.skip(0) =~= name);
}

/// The directory in which a file lies does not matter to its file name.
pub proof fn law_directory_does_not_matter(
    style: PathStyle,
    directory: Seq<u8>,
    separator: u8,
    name: Seq<u8>,
)
    requires
        nameable(style, name),
        lies_in(style, directory, separator, name),
    ensures
        file_name(style, directory.push(separator) + name) == Some(name),
{
    let path = directory.push(separator) + name;
    match style {
        PathStyle::Unix => {
            lemma_last_piece(directory, separator, name, false);
        },
        PathStyle::Windows => {
            lemma_prefix_len(path);
            let start = prefix_len(path);
            let rest = path.skip(start);
            let before = directory.skip(start);
            assert(rest =~= before.push(separator) + name);
            let counts = is_verbatim(path);
            if !counts {
                assert(unified(name) =~= name);
                assert(unified(rest) =~= unified(before).push(BACKSLASH) + name);
                lemma_last_piece(unified(before), BACKSLASH, name, counts);
            } else if before.len() == 0 {
                assert(windows_body(path) =~= name);
                lemma_last_piece(before, BACKSLASH, name, counts);
            } else if separates(PathStyle::Windows, before[0]) {
                assert(windows_body(path) =~= before.skip(1).push(BACKSLASH) + name);
                lemma_last_piece(before.skip(1), BACKSLASH, name, counts);
            } else {
                lemma_last_piece(before, BACKSLASH, name, counts);
            }
        },
    }
}

/// A path that is a name alone has it as its file name. On Windows a drive in front is none of it.
pub proof fn law_bare_name(style: PathStyle, name: Seq<u8>)
    requires
        nameable(style, name),
        style is Windows ==> !has_drive(name),
    ensures
        file_name(style, name) == Some(name),
{
    match style {
        PathStyle::Unix => {
            lemma_last_piece(name, SLASH, name, false);
        },
        PathStyle::Windows => {
            assert(windows_body(name) =~= name);
            lemma_last_piece(name, BACKSLASH, name, false);
        },
    }
}

/// On Windows a name lies in every directory that does not start with two separators, such as one
/// on a drive or a relative one.
pub proof fn law_ordinary_directory(directory: Seq<u8>, separator: u8, name: Seq<u8>)
    requires
        nameable(PathStyle::Windows, name),
        separates(PathStyle::Windows, separator),
        !starts_with_two(directory),
    ensures
        lies_in(PathStyle::Windows, directory, separator, name),
{
    let path = directory.push(separator) + name;
    assert(path[directory.len() as int] == separator);
    assert forall|i: int| directory.len() < i < path.len() implies !separates(
        PathStyle::Windows,
        #[trigger] path[i],
    ) by {
        assert(path[i] == name[i - directory.len() - 1]);
    }
    assert(path[directory.len() as int + 1] == name[0]);
    if directory.len() >= 2 {
        assert(path[0] == directory[0] && path[1] == directory[1]);
    }
    if starts_with_two(path) {
        let rest = path.skip(2);
        assert(directory.len() == 1);
        assert(rest =~= name);
        lemma_component_len(rest, false);
    }
}

/// An extension does not matter to the stem of a file name.
pub proof fn law_extension_does_not_matter(stem: Seq<u8>, extension: Seq<u8>)
    requires
        stem.len() > 0,
        !extension.contains(DOT),
    ensures
        stem_of(stem.push(DOT) + extension) == stem,
{
    let name = stem.push(DOT) + extension;
    assert forall|i: int| stem.len() < i < name.len() implies name[i] != DOT by {
        assert(extension[i - stem.len() - 1] == name[i]);
        assert(extension.contains(extension[i - stem.len() - 1]));
    }
    lemma_last_place_is(name, DOT, stem.len() as int);
    assert(name.take(stem.len() as int) =~= stem);
}

/// The stem of a path is that of its file name; a path without a file name has none.
pub proof fn law_stem_is_of_the_name(style: PathStyle, path: Seq<u8>, name: Seq<u8>)
    ensures
        file_name(style, path) == Some(name) ==> file_stem(style, path) == Some(stem_of(name)),
        file_name(style, path) is None ==> file_stem(style, path) is None,
{
}

/// A name without a dot is its own stem, and so is one whose only dot comes first.
pub proof fn law_name_without_extension(name: Seq<u8>)
    requires
        forall|i: int| 0 < i < name.len() ==> name[i] != DOT,
    ensures
        stem_of(name) == name,
{
    lemma_last_place(name, DOT);
}

/// The last piece of a path that ends with a separator is empty, and one that ends with a separator
/// and `tail` has `tail` as its last piece; the pieces before it are those of the rest.
proof fn lemma_tail_piece(path: Seq<u8>, separator: u8, tail: Seq<u8>)
    requires
        forall|i: int| 0 <= i < tail.len() ==> tail[i] != separator,
    ensures
        split(path.push(separator) + tail, separator).len() > 0,
        split(path.push(separator) + tail, separator).last() == tail,
        split(path.push(separator) + tail, separator).drop_last() == split(path, separator),
{
    let whole = path.push(separator) + tail;
    lemma_last_place_is(whole, separator, path.len() as int);
    lemma_split_last(whole, separator);
    assert(whole.skip(path.len() as int + 1) =~= tail);
    assert(whole.take(path.len() as int) =~= path);
}

/// What a Windows path without two separators in front ends with is what its body ends with.
proof fn lemma_body_of_tail(path: Seq<u8>, separator: u8, tail: Seq<u8>)
    requires
        separates(PathStyle::Windows, separator),
        !starts_with_two(path),
        forall|i: int| 0 <= i < tail.len() ==> tail[i] == DOT,
    ensures
        ({
            let whole = path.push(separator) + tail;
            &&& !is_verbatim(whole)
            &&& !is_verbatim(path)
            &&& windows_body(whole) == windows_body(path).push(BACKSLASH) + tail
        }),
{
    let whole = path.push(separator) + tail;
    if path.len() >= 2 {
        assert(whole[0] == path[0] && whole[1] == path[1]);
        assert(prefix_len(whole) == prefix_len(path));
    } else if path.len() == 1 {
        assert(whole[0] == path[0] && whole[1] == separator);
        if starts_with_two(whole) {
            let rest = whole.skip(2);
            assert(rest =~= tail);
            lemma_component_len(rest, false);
            assert(forall|i: int| 2 <= i < whole.len() ==> whole[i] == DOT);
            assert(prefix_len(whole) == 0);
        }
        assert(prefix_len(whole) == 0 && prefix_len(path) == 0);
    } else {
        assert(whole[0] == separator);
        assert(whole.len() > 1 ==> whole[1] == DOT);
        assert(prefix_len(whole) == 0 && prefix_len(path) == 0);
    }
    lemma_prefix_len(path);
    let start = prefix_len(path);
    assert(whole.skip(start) =~= path.skip(start).push(separator) + tail);
    assert(unified(tail) =~= tail);
    assert(unified(whole.skip(start)) =~= unified(path.skip(start)).push(BACKSLASH) + tail);
}

/// A separator at the end of a path, and a `.` behind one, do not matter to the file name; and a
/// path that ends in `..` has none. On Windows this is said of paths that do not start with two
/// separators.
pub proof fn law_end_of_a_path(style: PathStyle, path: Seq<u8>, separator: u8)
    requires
        separates(style, separator),
        style is Windows ==> !starts_with_two(path),
    ensures
        file_name(style, path.push(separator)) == file_name(style, path),
        file_name(style, path.push(separator).push(DOT)) == file_name(style, path),
        file_name(style, path.push(separator).push(DOT).push(DOT)) is None,
{
    let none = Seq::<u8>::empty();
    let one = seq![DOT];
    let two = seq![DOT, DOT];
    assert(path.push(separator) =~= path.push(separator) + none);
    assert(path.push(separator).push(DOT) =~= path.push(separator) + one);
    assert(path.push(separator).push(DOT).push(DOT) =~= path.push(separator) + two);
    assert(two.len() == 2 && one.len() == 1);
    match style {
        PathStyle::Unix => {
            lemma_tail_piece(path, SLASH, none);
            lemma_tail_piece(path, SLASH, one);
            lemma_tail_piece(path, SLASH, two);
        },
        PathStyle::Windows => {
            lemma_body_of_tail(path, separator, none);
            lemma_body_of_tail(path, separator, one);
            lemma_body_of_tail(path, separator, two);
            let body = windows_body(path);
            lemma_tail_piece(body, BACKSLASH, none);
            lemma_tail_piece(body, BACKSLASH, one);
            lemma_tail_piece(body, BACKSLASH, two);
        },
    }
}

/// An empty path, `.` and `..` have no file name.
pub proof fn law_paths_without_a_name(style: PathStyle)
    ensures
        file_name(style, Seq::empty()) is None,
        file_name(style, seq![DOT]) is None,
        file_name(style, seq![DOT, DOT]) is None,
{
    let none = Seq::<u8>::empty();
    let one = seq![DOT];
    let two = seq![DOT, DOT];
    assert(windows_body(none) =~= none);
    assert(windows_body(one) =~= one);
    assert(windows_body(two) =~= two);
    lemma_one_piece(none, SLASH);
    lemma_one_piece(none, BACKSLASH);
    lemma_one_piece(one, SLASH);
    lemma_one_piece(one, BACKSLASH);
    lemma_one_piece(two, SLASH);
    lemma_one_piece(two, BACKSLASH);
    reveal_with_fuel(last_component, 3);
    assert(seq![none].drop_last() =~= Seq::<Seq<u8>>::empty());
    assert(seq![one].drop_last() =~= Seq::<Seq<u8>>::empty());
}

proof fn lemma_one_piece(text: Seq<u8>, separator: u8)
    requires
        forall|i: int| 0 <= i < text.len() ==> text[i] != separator,
    ensures
        split(text, separator) == seq![text],
{
    lemma_last_place_is(text, separator, -1);
    lemma_split_last(text, separator);
    assert(text.skip(0) =~= text);
    assert(split(text, separator) =~= seq![text]);
}

/// A component ends at the first byte that ends one, or where there are no more.
proof fn lemma_component_is(name: Seq<u8>, rest: Seq<u8>, verbatim: bool)
    requires
        forall|i: int| 0 <= i < name.len() ==> !ends_component(#[trigger] name[i], verbatim),
        rest.len() > 0 ==> ends_component(rest[0], verbatim),
    ensures
        component_len(name + rest, verbatim) == name.len(),
{
    let bytes = name + rest;
    lemma_component_len(bytes, verbatim);
    let length = component_len(bytes, verbatim);
    if length < name.len() {
        assert(bytes[length] == name[length]);
    }
    if length > name.len() {
        assert(bytes[name.len() as int] == rest[0]);
    }
}

/// On Windows a letter and a colon in front of a path are its drive, and no part of a name.
pub proof fn law_drive_is_a_prefix(letter: u8, rest: Seq<u8>)
    requires
        0x41 <= letter <= 0x5a || 0x61 <= letter <= 0x7a,
    ensures
        prefix_len(seq![letter, 0x3a] + rest) == 2,
{
    let path = seq![letter, 0x3a] + rest;
    assert(path[0] == letter && path[1] == 0x3a);
}

/// On Windows a path has no prefix that starts neither with two separators nor with a letter and a
/// colon.
pub proof fn law_other_paths_have_no_prefix(path: Seq<u8>)
    requires
        !(path.len() >= 2 && (path[0] == 0x2f || path[0] == 0x5c) && (path[1] == 0x2f || path[1]
            == 0x5c)),
        !(path.len() >= 2 && (0x41 <= path[0] <= 0x5a || 0x61 <= path[0] <= 0x7a) && path[1]
            == 0x3a),
    ensures
        prefix_len(path) == 0,
{
}

/// On Windows a server and a share behind two separators are a prefix, and no part of a name.
pub proof fn law_share_is_a_prefix(
    first: u8,
    second: u8,
    server: Seq<u8>,
    third: u8,
    share: Seq<u8>,
    rest: Seq<u8>,
)
    requires
        separates(PathStyle::Windows, first),
        separates(PathStyle::Windows, second),
        separates(PathStyle::Windows, third),
        server.len() > 0,
        share.len() > 0,
        forall|i: int|
            0 <= i < server.len() ==> !separates(PathStyle::Windows, #[trigger] server[i]),
        forall|i: int| 0 <= i < share.len() ==> !separates(PathStyle::Windows, #[trigger] share[i]),
        rest.len() > 0 ==> separates(PathStyle::Windows, rest[0]),
        server != seq![DOT],
        server == seq![QUESTION_MARK] ==> !(first == BACKSLASH && second == BACKSLASH && third
            == BACKSLASH),
    ensures
        prefix_len(seq![first, second] + (server.push(third) + (share + rest))) == 3 + server.len()
            + share.len(),
{
    let behind = seq![third] + (share + rest);
    let bytes = server.push(third) + (share + rest);
    let path = seq![first, second] + bytes;
    assert(bytes =~= server + behind);
    assert(path.skip(2) =~= bytes);
    lemma_component_is(server, behind, false);
    assert(bytes.skip(server.len() as int + 1) =~= share + rest);
    lemma_component_is(share, rest, false);
    assert(path[0] == first && path[1] == second && path[2] == server[0]);
    if server.len() == 1 {
        assert(path[3] == third);
        assert(server =~= seq![server[0]]);
    } else {
        assert(path[3] == server[1]);
    }
    assert(!is_verbatim(path));
}

/// On Windows a device behind `\\.\` is a prefix.
pub proof fn law_device_is_a_prefix(
    first: u8,
    second: u8,
    third: u8,
    name: Seq<u8>,
    rest: Seq<u8>,
)
    requires
        separates(PathStyle::Windows, first),
        separates(PathStyle::Windows, second),
        separates(PathStyle::Windows, third),
        forall|i: int| 0 <= i < name.len() ==> !separates(PathStyle::Windows, #[trigger] name[i]),
        rest.len() > 0 ==> separates(PathStyle::Windows, rest[0]),
    ensures
        prefix_len(seq![first, second, DOT, third] + (name + rest)) == 4 + name.len(),
{
    let path = seq![first, second, DOT, third] + (name + rest);
    assert(path.skip(4) =~= name + rest);
    lemma_component_is(name, rest, false);
    assert(path[0] == first && path[1] == second && path[2] == DOT && path[3] == third);
}

/// A verbatim path on Windows has what stands behind `\\?\` as its prefix: a drive that stands
/// alone, a server and a share behind `UNC\`, or any other component. Only `\` parts them, except
/// directly behind a drive or `UNC`.
pub proof fn law_verbatim_prefix(
    letter: u8,
    separator: u8,
    server: Seq<u8>,
    share: Seq<u8>,
    name: Seq<u8>,
    rest: Seq<u8>,
)
    requires
        forall|i: int| 0 <= i < server.len() ==> server[i] != BACKSLASH,
        forall|i: int| 0 <= i < share.len() ==> share[i] != BACKSLASH,
        forall|i: int| 0 <= i < name.len() ==> name[i] != BACKSLASH,
        rest.len() > 0 ==> rest[0] == BACKSLASH,
        share.len() > 0,
    ensures
        ({
            let start = seq![BACKSLASH, BACKSLASH, QUESTION_MARK, BACKSLASH];
            &&& (0x41 <= letter <= 0x5a || 0x61 <= letter <= 0x7a) ==> prefix_len(
                start + (seq![letter, COLON] + rest),
            ) == 6
            &&& (0x41 <= letter <= 0x5a || 0x61 <= letter <= 0x7a) && separates(
                PathStyle::Windows,
                separator,
            ) ==> prefix_len(start + (seq![letter, COLON, separator] + name)) == 6
            &&& separates(PathStyle::Windows, separator) ==> prefix_len(
                start + (seq![0x55u8, 0x4eu8, 0x43u8, separator] + (server.push(BACKSLASH) + (share
                    + rest))),
            ) == 9 + server.len() + share.len()
            &&& !has_drive(name) && !names_share(name + rest) ==> prefix_len(start + (name + rest))
                == 4 + name.len()
        }),
{
    let start = seq![BACKSLASH, BACKSLASH, QUESTION_MARK, BACKSLASH];
    let drive_rest = seq![letter, COLON] + rest;
    assert((start + drive_rest).skip(4) =~= drive_rest);
    let drive_name = seq![letter, COLON, separator] + name;
    assert((start + drive_name).skip(4) =~= drive_name);
    let behind = seq![BACKSLASH] + (share + rest);
    let shared = server.push(BACKSLASH) + (share + rest);
    let unc = seq![0x55u8, 0x4eu8, 0x43u8, separator] + shared;
    assert((start + unc).skip(4) =~= unc);
    assert(unc.skip(4) =~= shared);
    assert(shared =~= server + behind);
    lemma_component_is(server, behind, true);
    assert(shared.skip(server.len() as int + 1) =~= share + rest);
    lemma_component_is(share, rest, true);
    assert((start + (name + rest)).skip(4) =~= name + rest);
    lemma_component_is(name, rest, true);
    if !has_drive(name) && has_drive(name + rest) {
        let whole = name + rest;
        if name.len() == 0 {
            assert(whole[0] == rest[0]);
        } else if name.len() == 1 {
            assert(whole[1] == rest[0]);
        } else {
            assert(whole[0] == name[0] && whole[1] == name[1]);
        }
    }
}

/// On Windows a path that is a prefix alone has no file name.
pub proof fn law_prefix_is_no_name(path: Seq<u8>)
    requires
        prefix_len(path) == path.len(),
    ensures
        file_name(PathStyle::Windows, path) is None,
{
    let none = Seq::<u8>::empty();
    assert(windows_body(path) =~= none);
    lemma_one_piece(none, BACKSLASH);
    reveal_with_fuel(last_component, 2);
    assert(seq![none].drop_last() =~= Seq::<Seq<u8>>::empty());
}

} // verus!
