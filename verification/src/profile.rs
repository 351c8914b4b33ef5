//! The commands that list, show, test, add and remove profiles.
use crate::config::{
    distinct_names, first_named, has_profile, lemma_first_named, lemma_first_named_unique, lemma_lookup,
    lookup, named, ClaudexConfig, ConfigView, ProfileConfig, ProfileView,
};
use crate::error::{ProfileError, ProfileErrorView};
use crate::outside::{debug_string, write_debug_string};
use crate::text::{
    dashes, decimal, decimal_text, join, joined, pad_right, padded, repeated, texts,
};
use crate::text_map::{pair_texts, EntryView, TextMap};
use vstd::prelude::*;

verus! {

/// A line of the table of profiles: four columns, and behind them what is left to say.
pub open spec fn table_row(
    name: Seq<char>,
    model: Seq<char>,
    provider_type: Seq<char>,
    base_url: Seq<char>,
    status: Seq<char>,
) -> Seq<char> {
    padded(name, 16) + " "@ + padded(model, 20) + " "@ + padded(provider_type, 12) + " "@ + padded(
        base_url,
        30,
    ) + status
}

/// Writes a line of the table of profiles.
pub fn write_row(
    name: &str,
    model: &str,
    provider_type: &str,
    base_url: &str,
    status: &str,
) -> (result: String)
    ensures
        result@ == table_row(name@, model@, provider_type@, base_url@, status@),
{
    let mut row: String = pad_right(name, 16);
    row.append(" ");
    row.append(pad_right(model, 20).as_str());
    row.append(" ");
    row.append(pad_right(provider_type, 12).as_str());
    row.append(" ");
    row.append(pad_right(base_url, 30).as_str());
    row.append(status);
    row
}

/// The line of the table that belongs to a profile.
pub open spec fn profile_row(profile: ProfileView) -> Seq<char> {
    table_row(
        profile.name,
        profile.default_model,
        profile.provider_type.label_text(),
        profile.base_url,
        if profile.enabled {
            ""@
        } else {
            " (disabled)"@
        },
    )
}

/// What the list of profiles shows, line by line.
pub open spec fn profile_table(profiles: Seq<ProfileView>) -> Seq<Seq<char>> {
    if profiles.len() == 0 {
        seq!["No profiles configured. Add one with: claudex profile add"@]
    } else {
        seq![table_row("NAME"@, "MODEL"@, "TYPE"@, "BASE_URL"@, ""@), repeated('-', 78)]
            + Seq::new(profiles.len(), |i: int| profile_row(profiles[i]))
    }
}

/// Lists the profiles, one line for each under a heading of two lines.
pub fn list_profiles(config: &ClaudexConfig) -> (lines: Vec<String>)
    ensures
        texts(lines@) == profile_table(config@.profiles),
{
    let mut lines: Vec<String> = Vec::new();
    if config.profiles.len() == 0 {
        lines.push("No profiles configured. Add one with: claudex profile add".to_owned());
        assert(texts(lines@) =~= profile_table(config@.profiles));
        return lines;
    }
    lines.push(write_row("NAME", "MODEL", "TYPE", "BASE_URL", ""));
    lines.push(dashes(78));
    let ghost heading = seq![
        table_row("NAME"@, "MODEL"@, "TYPE"@, "BASE_URL"@, ""@),
        repeated('-', 78),
    ];
    let ghost rows = Seq::new(
        config@.profiles.len(),
        |i: int| profile_row(config@.profiles[i]),
    );
    assert(texts(lines@) =~= heading + rows.take(0));
    let mut at: usize = 0;
    while at < config.profiles.len()
        invariant
            at <= config.profiles.len(),
            rows == Seq::new(
                config@.profiles.len(),
                |i: int| profile_row(config@.profiles[i]),
            ),
            texts(lines@) == heading + rows.take(at as int),
        decreases config.profiles.len() - at,
    {
        let profile: &ProfileConfig = &config.profiles[at];
        let status: &'static str = if profile.enabled {
            ""
        } else {
            " (disabled)"
        };
        let ghost shown = texts(lines@);
        lines.push(
            write_row(
                profile.name.as_str(),
                profile.default_model.as_str(),
                profile.provider_type.label(),
                profile.base_url.as_str(),
                status,
            ),
        );
        assert(rows[at as int] == profile_row(profile@));
        assert(texts(lines@) =~= shown.push(rows[at as int]));
        assert(heading + rows.take(at + 1) =~= (heading + rows.take(at as int)).push(
            rows[at as int],
        ));
        at = at + 1;
    }
    assert(rows.take(at as int) =~= rows);
    lines
}

/// How an entry of a map is shown, given its key and its value as they are shown.
pub open spec fn shown_entry(entry: EntryView) -> Seq<char> {
    entry.0 + ": "@ + entry.1
}

/// How a map is shown, given its keys and values as they are shown.
pub open spec fn shown_map(entries: Seq<EntryView>) -> Seq<char> {
    "{"@ + joined(Seq::new(entries.len(), |i: int| shown_entry(entries[i])), ", "@) + "}"@
}

/// Writes a map, given its keys and values as they are shown.
pub fn write_map(entries: &Vec<(String, String)>) -> (result: String)
    ensures
        result@ == shown_map(pair_texts(entries@)),
{
    let ghost all = Seq::new(entries@.len(), |i: int| shown_entry(pair_texts(entries@)[i]));
    let mut pieces: Vec<String> = Vec::new();
    let mut at: usize = 0;
    assert(texts(pieces@) =~= all.take(0));
    while at < entries.len()
        invariant
            at <= entries.len(),
            all == Seq::new(entries@.len(), |i: int| shown_entry(pair_texts(entries@)[i])),
            texts(pieces@) =~= all.take(at as int),
        decreases entries.len() - at,
    {
        let mut piece: String = entries[at].0.clone();
        piece.append(": ");
        piece.append(entries[at].1.as_str());
        assert(piece@ == all[at as int]);
        let ghost before = texts(pieces@);
        pieces.push(piece);
        assert(texts(pieces@) =~= before.push(all[at as int]));
        at = at + 1;
    }
    assert(texts(pieces@) =~= all);
    let mut text: String = "{".to_owned();
    text.append(join(&pieces, ", ").as_str());
    text.append("}");
    text
}

/// The entries of a map with keys and values as they are shown.
pub open spec fn debug_entries(entries: Seq<EntryView>) -> Seq<EntryView> {
    Seq::new(entries.len(), |i: int| (debug_string(entries[i].0), debug_string(entries[i].1)))
}

fn quote_entries(map: &TextMap) -> (result: Vec<(String, String)>)
    ensures
        pair_texts(result@) == debug_entries(map@),
{
    let ghost all = debug_entries(map@);
    let mut result: Vec<(String, String)> = Vec::new();
    let mut at: usize = 0;
    assert(pair_texts(result@) =~= all.take(0));
    while at < map.len()
        invariant
            at <= map@.len(),
            all == debug_entries(map@),
            pair_texts(result@) =~= all.take(at as int),
        decreases map@.len() - at,
    {
        let ghost before = pair_texts(result@);
        let key: String = write_debug_string(map.key(at).as_str());
        let value: String = write_debug_string(map.value(at).as_str());
        result.push((key, value));
        assert(pair_texts(result@) =~= before.push(all[at as int]));
        at = at + 1;
    }
    assert(all.take(at as int) =~= all);
    result
}

/// What is shown of a profile, line by line. Backups and custom headers are shown where there are
/// any; `headers` is the line of the custom headers.
pub open spec fn profile_sheet(profile: ProfileView, headers: Seq<char>) -> Seq<Seq<char>> {
    seq![
        "Name:           "@ + profile.name,
        "Provider:       "@ + profile.provider_type.label_text(),
        "Base URL:       "@ + profile.base_url,
        "Default Model:  "@ + profile.default_model,
        "Enabled:        "@ + (if profile.enabled {
            "true"@
        } else {
            "false"@
        }),
        "Priority:       "@ + decimal(profile.priority as nat),
    ] + (if profile.backup_providers.len() == 0 {
        Seq::empty()
    } else {
        seq!["Backups:        "@ + joined(profile.backup_providers, ", "@)]
    }) + (if profile.custom_headers.len() == 0 {
        Seq::empty()
    } else {
        seq!["Custom Headers: "@ + headers]
    })
}

fn push_line(lines: &mut Vec<String>, label: &str, value: &str)
    ensures
        texts(final(lines)@) == texts(old(lines)@).push(label@ + value@),
{
    let mut line: String = label.to_owned();
    line.append(value);
    lines.push(line);
    assert(texts(lines@) =~= texts(old(lines)@).push(label@ + value@));
}

/// Writes what is shown of a profile, given the text of its custom headers.
pub fn write_sheet(profile: &ProfileConfig, headers: &str) -> (lines: Vec<String>)
    ensures
        texts(lines@) == profile_sheet(profile@, headers@),
{
    let mut lines: Vec<String> = Vec::new();
    push_line(&mut lines, "Name:           ", profile.name.as_str());
    push_line(&mut lines, "Provider:       ", profile.provider_type.label());
    push_line(&mut lines, "Base URL:       ", profile.base_url.as_str());
    push_line(&mut lines, "Default Model:  ", profile.default_model.as_str());
    let enabled: &'static str = if profile.enabled {
        "true"
    } else {
        "false"
    };
    push_line(&mut lines, "Enabled:        ", enabled);
    let priority: String = decimal_text(profile.priority as u128);
    push_line(&mut lines, "Priority:       ", priority.as_str());
    if profile.backup_providers.len() > 0 {
        let backups: String = join(&profile.backup_providers, ", ");
        push_line(&mut lines, "Backups:        ", backups.as_str());
    }
    if profile.custom_headers.len() > 0 {
        push_line(&mut lines, "Custom Headers: ", headers);
    }
    assert(texts(lines@) =~= profile_sheet(profile@, headers@));
    lines
}

/// What comes of showing the profile that is called `name`: its sheet, or an error.
pub open spec fn shown_profile(profiles: Seq<ProfileView>, name: Seq<char>) -> Result<
    Seq<Seq<char>>,
    ProfileErrorView,
> {
    match lookup(profiles, name) {
        Some(profile) => Ok(
            profile_sheet(profile, shown_map(debug_entries(profile.custom_headers))),
        ),
        None => Err(ProfileErrorView::NotFound(name)),
    }
}

/// Shows the profile that is called `name`.
pub fn show_profile(config: &ClaudexConfig, name: &str) -> (result: Result<
    Vec<String>,
    ProfileError,
>)
    ensures
        match (lookup(config@.profiles, name@), result) {
            (Some(profile), Ok(lines)) => texts(lines@) == profile_sheet(
                profile,
                shown_map(debug_entries(profile.custom_headers)),
            ),
            (None, Err(error)) => error@ == ProfileErrorView::NotFound(name@),
            _ => false,
        },
        shown_profile(config@.profiles, name@) == (match result {
            Ok(lines) => Ok(texts(lines@)),
            Err(error) => Err(error@),
        }),
{
    match config.find_profile(name) {
        Some(profile) => {
            let quoted: Vec<(String, String)> = quote_entries(&profile.custom_headers);
            let headers: String = write_map(&quoted);
            Ok(write_sheet(profile, headers.as_str()))
        },
        None => Err(ProfileError::NotFound(name.to_owned())),
    }
}

/// The configuration with one more profile, at the end.
pub open spec fn with_profile(config: ConfigView, profile: ProfileView) -> ConfigView {
    ConfigView { profiles: config.profiles.push(profile), ..config }
}

/// The configuration without the first profile that is called `name`.
pub open spec fn without_profile(config: ConfigView, name: Seq<char>) -> ConfigView {
    ConfigView {
        profiles: config.profiles.remove(
            choose|at: int| first_named(config.profiles, name, at),
        ),
        ..config
    }
}

/// What comes of adding a profile: the configuration with it, or an error.
pub open spec fn add_outcome(config: ConfigView, profile: ProfileView) -> Result<
    ConfigView,
    ProfileErrorView,
> {
    if has_profile(config.profiles, profile.name) {
        Err(ProfileErrorView::AlreadyExists(profile.name))
    } else {
        Ok(with_profile(config, profile))
    }
}

/// What comes of removing the first profile that is called `name`: the configuration without it, or
/// an error.
pub open spec fn remove_outcome(config: ConfigView, name: Seq<char>) -> Result<
    ConfigView,
    ProfileErrorView,
> {
    if has_profile(config.profiles, name) {
        Ok(without_profile(config, name))
    } else {
        Err(ProfileErrorView::NotFound(name))
    }
}

/// Adds a profile at the end, unless one of its name is there already.
pub fn add_profile(config: &mut ClaudexConfig, profile: ProfileConfig) -> (result: Result<
    (),
    ProfileError,
>)
    ensures
        match result {
            Ok(()) => {
                &&& !has_profile(old(config)@.profiles, profile@.name)
                &&& final(config)@ == with_profile(old(config)@, profile@)
            },
            Err(error) => {
                &&& has_profile(old(config)@.profiles, profile@.name)
                &&& error@ == ProfileErrorView::AlreadyExists(profile@.name)
                &&& *final(config) == *old(config)
            },
        },
        add_outcome(old(config)@, profile@) == (match result {
            Ok(()) => Ok(final(config)@),
            Err(error) => Err(error@),
        }),
{
    if config.profile_index(profile.name.as_str()).is_some() {
        return Err(ProfileError::AlreadyExists(profile.name));
    }
    let ghost added = profile@;
    config.profiles.push(profile);
    assert(config@.profiles =~= old(config)@.profiles.push(added));
    Ok(())
}

/// Removes the first profile that is called `name`.
pub fn remove_profile(config: &mut ClaudexConfig, name: &str) -> (result: Result<
    (),
    ProfileError,
>)
    ensures
        match result {
            Ok(()) => {
                &&& has_profile(old(config)@.profiles, name@)
                &&& final(config)@ == without_profile(old(config)@, name@)
            },
            Err(error) => {
                &&& !has_profile(old(config)@.profiles, name@)
                &&& error@ == ProfileErrorView::NotFound(name@)
                &&& *final(config) == *old(config)
            },
        },
        remove_outcome(old(config)@, name@) == (match result {
            Ok(()) => Ok(final(config)@),
            Err(error) => Err(error@),
        }),
{
    match config.profile_index(name) {
        Some(at) => {
            proof {
                lemma_first_named_unique(old(config)@.profiles, name@, at as int);
            }
            config.profiles.remove(at);
            assert(config@.profiles =~= old(config)@.profiles.remove(at as int));
            Ok(())
        },
        None => Err(ProfileError::NotFound(name.to_owned())),
    }
}

/// What is shown once the profile called `name` was removed.
pub fn removed_message(name: &str) -> (result: String)
    ensures
        result@ == "Removed profile '"@ + name@ + "'"@,
{
    let mut text: String = "Removed profile '".to_owned();
    text.append(name);
    text.append("'");
    text
}

/// A profile that was added is found under its name, and every other name finds what it found
/// before.
pub proof fn law_added_is_found(config: ConfigView, profile: ProfileView, name: Seq<char>)
    requires
        !has_profile(config.profiles, profile.name),
    ensures
        lookup(with_profile(config, profile).profiles, name) == (if name == profile.name {
            Some(profile)
        } else {
            lookup(config.profiles, name)
        }),
{
    let before = config.profiles;
    let after = with_profile(config, profile).profiles;
    if name == profile.name {
        assert forall|i: int| 0 <= i < before.len() implies !named(after, name, i) by {
            assert(!named(before, name, i));
        }
        lemma_lookup(after, name, before.len() as int);
    } else {
        lemma_same_lookup(before, after, name, |i: int| i, |i: int| i);
    }
}

/// Two lists in which the profiles of a name stand in the same order find the same under it: `to`
/// takes their places in the one to their places in the other, and `back` takes them back.
proof fn lemma_same_lookup(
    left: Seq<ProfileView>,
    right: Seq<ProfileView>,
    name: Seq<char>,
    to: spec_fn(int) -> int,
    back: spec_fn(int) -> int,
)
    requires
        forall|i: int| #[trigger]
            named(left, name, i) ==> named(right, name, to(i)) && left[i] == right[to(i)] && back(
                to(i),
            ) == i,
        forall|i: int| #[trigger] named(right, name, i) ==> named(left, name, back(i)),
        forall|i: int, j: int|
            #![trigger named(right, name, i), named(right, name, j)]
            named(right, name, i) && named(right, name, j) && i < j ==> back(i) < back(j),
    ensures
        lookup(left, name) == lookup(right, name),
{
    if has_profile(left, name) {
        let some = choose|i: int| named(left, name, i);
        let first = lemma_first_named(left, name, some);
        assert forall|i: int| 0 <= i < to(first) implies !named(right, name, i) by {
            if named(right, name, i) {
                assert(named(right, name, to(first)));
                assert(named(left, name, back(i)));
            }
        }
        lemma_lookup(left, name, first);
        lemma_lookup(right, name, to(first));
    } else if has_profile(right, name) {
        let some = choose|i: int| named(right, name, i);
        assert(named(left, name, back(some)));
    }
}

/// A name that was added is taken: adding it once more is refused.
pub proof fn law_added_name_is_taken(config: ConfigView, profile: ProfileView)
    ensures
        has_profile(with_profile(config, profile).profiles, profile.name),
{
    assert(named(
        with_profile(config, profile).profiles,
        profile.name,
        config.profiles.len() as int,
    ));
}

/// Removing a profile that was just added gives back the configuration as it was.
pub proof fn law_remove_undoes_add(config: ConfigView, profile: ProfileView)
    requires
        !has_profile(config.profiles, profile.name),
    ensures
        without_profile(with_profile(config, profile), profile.name) == config,
{
    let after = with_profile(config, profile).profiles;
    let last = config.profiles.len() as int;
    assert forall|i: int| 0 <= i < last implies !named(after, profile.name, i) by {
        assert(!named(config.profiles, profile.name, i));
    }
    lemma_first_named_unique(after, profile.name, last);
    assert(after.remove(last) =~= config.profiles);
}

/// Where no two profiles have the same name, that is so after one was added.
pub proof fn law_add_keeps_names_distinct(config: ConfigView, profile: ProfileView)
    requires
        distinct_names(config.profiles),
        !has_profile(config.profiles, profile.name),
    ensures
        distinct_names(with_profile(config, profile).profiles),
{
    let after = with_profile(config, profile).profiles;
    assert forall|i: int, j: int| 0 <= i < j < after.len() implies after[i].name
        != after[j].name by {
        if j == config.profiles.len() {
            assert(!named(config.profiles, profile.name, i));
        }
    }
}

proof fn lemma_first_place(profiles: Seq<ProfileView>, name: Seq<char>) -> (place: int)
    requires
        has_profile(profiles, name),
    ensures
        first_named(profiles, name, place),
        place == (choose|at: int| first_named(profiles, name, at)),
{
    let some = choose|i: int| named(profiles, name, i);
    let place = lemma_first_named(profiles, name, some);
    lemma_first_named_unique(profiles, name, place);
    place
}

/// Where no two profiles have the same name, that is so after one was removed, and the name that
/// was removed is free again.
pub proof fn law_removed_is_gone(config: ConfigView, name: Seq<char>)
    requires
        distinct_names(config.profiles),
        has_profile(config.profiles, name),
    ensures
        distinct_names(without_profile(config, name).profiles),
        !has_profile(without_profile(config, name).profiles, name),
        without_profile(config, name).profiles.len() == config.profiles.len() - 1,
{
    let before = config.profiles;
    let place = lemma_first_place(before, name);
    let after = without_profile(config, name).profiles;
    assert(after == before.remove(place));
    assert forall|i: int| !named(after, name, i) by {
        if named(after, name, i) {
            let old_place = if i < place {
                i
            } else {
                i + 1
            };
            assert(before[old_place] == after[i]);
            assert(before[old_place].name == before[place].name);
        }
    }
}

/// Removing a profile leaves what every other name finds as it was.
pub proof fn law_remove_keeps_others(config: ConfigView, name: Seq<char>, other: Seq<char>)
    requires
        has_profile(config.profiles, name),
        other != name,
    ensures
        lookup(without_profile(config, name).profiles, other) == lookup(config.profiles, other),
{
    let before = config.profiles;
    let place = lemma_first_place(before, name);
    let after = without_profile(config, name).profiles;
    assert(after == before.remove(place));
    lemma_same_lookup(
        before,
        after,
        other,
        |i: int|
            if i < place {
                i
            } else {
                i - 1
            },
        |i: int|
            if i < place {
                i
            } else {
                i + 1
            },
    );
}

/// The list shows a line for each profile, in their order, under a heading of two lines.
pub proof fn law_table_has_each_profile(profiles: Seq<ProfileView>)
    requires
        profiles.len() > 0,
    ensures
        profile_table(profiles).len() == profiles.len() + 2,
        forall|i: int|
            0 <= i < profiles.len() ==> profile_table(profiles)[i + 2] == #[trigger] profile_row(
                profiles[i],
            ),
{
}

/// A profile is shown with its name, provider, base URL, model, whether it is enabled, and priority,
/// in this order; then its backups, joined by commas, where it has any; then its custom headers,
/// where it has any. Neither of these two depends on the other, and nothing else is shown.
pub proof fn law_sheet(profile: ProfileView, headers: Seq<char>)
    ensures
        ({
            let sheet = profile_sheet(profile, headers);
            let backups: int = if profile.backup_providers.len() > 0 {
                1
            } else {
                0
            };
            let custom: int = if profile.custom_headers.len() > 0 {
                1
            } else {
                0
            };
            &&& sheet.len() == 6 + backups + custom
            &&& sheet[0] == "Name:           "@ + profile.name
            &&& sheet[1] == "Provider:       "@ + profile.provider_type.label_text()
            &&& sheet[2] == "Base URL:       "@ + profile.base_url
            &&& sheet[3] == "Default Model:  "@ + profile.default_model
            &&& profile.enabled ==> sheet[4] == "Enabled:        true"@
            &&& !profile.enabled ==> sheet[4] == "Enabled:        false"@
            &&& sheet[5] == "Priority:       "@ + decimal(profile.priority as nat)
            &&& profile.backup_providers.len() > 0 ==> sheet[6] == "Backups:        "@ + joined(
                profile.backup_providers,
                ", "@,
            )
            &&& profile.custom_headers.len() > 0 ==> sheet[6 + backups] == "Custom Headers: "@
                + headers
        }),
{
    reveal_strlit("Enabled:        ");
    reveal_strlit("true");
    reveal_strlit("false");
    reveal_strlit("Enabled:        true");
    reveal_strlit("Enabled:        false");
    assert("Enabled:        "@ + "true"@ =~= "Enabled:        true"@);
    assert("Enabled:        "@ + "false"@ =~= "Enabled:        false"@);
}

/// Whether a line of a sheet starts with `label`.
pub open spec fn line_labelled(sheet: Seq<Seq<char>>, label: Seq<char>, at: int) -> bool {
    &&& 0 <= at < sheet.len()
    &&& sheet[at].len() >= label.len()
    &&& sheet[at].take(label.len() as int) == label
}

/// The backups of a profile are shown if and only if it has any, and its custom headers if and only
/// if it has any.
pub proof fn law_sheet_shows_what_there_is(profile: ProfileView, headers: Seq<char>)
    ensures
        ({
            let sheet = profile_sheet(profile, headers);
            &&& (exists|at: int| line_labelled(sheet, "Backups:        "@, at))
                <==> profile.backup_providers.len() > 0
            &&& (exists|at: int| line_labelled(sheet, "Custom Headers: "@, at))
                <==> profile.custom_headers.len() > 0
        }),
{
    let sheet = profile_sheet(profile, headers);
    let backups = "Backups:        "@;
    let custom = "Custom Headers: "@;
    reveal_strlit("Name:           ");
    reveal_strlit("Provider:       ");
    reveal_strlit("Base URL:       ");
    reveal_strlit("Default Model:  ");
    reveal_strlit("Enabled:        ");
    reveal_strlit("Priority:       ");
    reveal_strlit("Backups:        ");
    reveal_strlit("Custom Headers: ");
    law_sheet(profile, headers);
    assert forall|at: int| 0 <= at < 6 implies !line_labelled(sheet, backups, at)
        && !line_labelled(sheet, custom, at) by {
        assert(sheet[at][0] != 'C');
        assert(sheet[at][0] != 'B' || sheet[at][2] == 's');
        if line_labelled(sheet, backups, at) {
            assert(sheet[at].take(16)[0] == 'B' && sheet[at].take(16)[2] == 'c');
        }
        if line_labelled(sheet, custom, at) {
            assert(sheet[at].take(16)[0] == 'C');
        }
    }
    if 0 < profile.backup_providers.len() {
        assert(sheet[6].take(16) =~= backups);
        assert(line_labelled(sheet, backups, 6));
        if line_labelled(sheet, custom, 6) {
            assert(sheet[6].take(16)[0] == 'C');
        }
    }
    if 0 < profile.custom_headers.len() {
        let last = sheet.len() - 1;
        assert(sheet[last].take(16) =~= custom);
        assert(line_labelled(sheet, custom, last));
        if line_labelled(sheet, backups, last) {
            assert(sheet[last].take(16)[0] == 'B');
        }
    }
}

/// A map is shown between braces. One entry more comes last, its value behind its key, with a comma
/// before it unless it is the first.
pub proof fn law_shown_map(entries: Seq<EntryView>, entry: EntryView)
    ensures
        shown_map(Seq::empty()) == "{}"@,
        shown_map(seq![entry]) == "{"@ + entry.0 + ": "@ + entry.1 + "}"@,
        entries.len() > 0 ==> shown_map(entries.push(entry)) == shown_map(entries).drop_last()
            + ", "@ + entry.0 + ": "@ + entry.1 + "}"@,
{
    reveal_strlit("{");
    reveal_strlit("}");
    reveal_strlit("{}");
    let none = Seq::<EntryView>::empty();
    assert(Seq::new(none.len(), |i: int| shown_entry(none[i])) =~= Seq::<Seq<char>>::empty());
    assert(shown_map(none) =~= "{}"@);
    let one = seq![entry];
    assert(Seq::new(one.len(), |i: int| shown_entry(one[i])) =~= seq![shown_entry(entry)]);
    assert(shown_map(one) =~= "{"@ + entry.0 + ": "@ + entry.1 + "}"@);
    if entries.len() > 0 {
        let more = entries.push(entry);
        let shown = Seq::new(entries.len(), |i: int| shown_entry(entries[i]));
        let shown_more = Seq::new(more.len(), |i: int| shown_entry(more[i]));
        assert(shown_more =~= shown.push(shown_entry(entry)));
        assert(shown_more.drop_last() =~= shown);
        assert(shown_map(entries).drop_last() =~= "{"@ + joined(shown, ", "@));
        assert(shown_map(more) =~= shown_map(entries).drop_last() + ", "@ + entry.0 + ": "@
            + entry.1 + "}"@);
    }
}

/// Every entry of a map is shown, in its place, with its key and its value.
pub proof fn law_every_entry_is_shown(entries: Seq<EntryView>, i: int)
    ensures
        debug_entries(entries).len() == entries.len(),
        0 <= i < entries.len() ==> debug_entries(entries)[i] == (
            debug_string(entries[i].0),
            debug_string(entries[i].1),
        ),
{
}

/// The line of a profile in the list has its name, model, type and base URL in columns of 16, 20,
/// 12 and 30 characters, and ends with a note if and only if the profile is disabled.
pub proof fn law_row(profile: ProfileView)
    ensures
        ({
            let columns = padded(profile.name, 16) + seq![' '] + padded(profile.default_model, 20)
                + seq![' '] + padded(profile.provider_type.label_text(), 12) + seq![' '] + padded(
                profile.base_url,
                30,
            );
            &&& profile.enabled ==> profile_row(profile) == columns
            &&& !profile.enabled ==> profile_row(profile) == columns + " (disabled)"@
        }),
{
    reveal_strlit(" ");
    reveal_strlit("");
    let columns = padded(profile.name, 16) + seq![' '] + padded(profile.default_model, 20) + seq![
        ' ',
    ] + padded(profile.provider_type.label_text(), 12) + seq![' '] + padded(profile.base_url, 30);
    assert(" "@ =~= seq![' ']);
    assert(profile.enabled ==> profile_row(profile) =~= columns);
    assert(!profile.enabled ==> profile_row(profile) =~= columns + " (disabled)"@);
}

/// The list starts with a heading whose columns are as wide as those of the profiles, and a line of
/// dashes; without profiles, one line says so.
pub proof fn law_heading(profiles: Seq<ProfileView>)
    ensures
        profiles.len() == 0 ==> profile_table(profiles) == seq![
            "No profiles configured. Add one with: claudex profile add"@,
        ],
        profiles.len() > 0 ==> {
            &&& profile_table(profiles)[0] == padded("NAME"@, 16) + seq![' '] + padded(
                "MODEL"@,
                20,
            ) + seq![' '] + padded("TYPE"@, 12) + seq![' '] + padded("BASE_URL"@, 30)
            &&& profile_table(profiles)[1].len() == 78
            &&& forall|i: int| 0 <= i < 78 ==> profile_table(profiles)[1][i] == '-'
        },
{
    reveal_strlit(" ");
    reveal_strlit("");
    assert(" "@ =~= seq![' ']);
    if profiles.len() > 0 {
        assert(profile_table(profiles)[0] =~= padded("NAME"@, 16) + seq![' '] + padded(
            "MODEL"@,
            20,
        ) + seq![' '] + padded("TYPE"@, 12) + seq![' '] + padded("BASE_URL"@, 30));
    }
}

/// Adding puts the profile behind all others and changes nothing else.
pub proof fn law_add_comes_last(config: ConfigView, profile: ProfileView)
    ensures
        with_profile(config, profile).profiles.len() == config.profiles.len() + 1,
        with_profile(config, profile).profiles.last() == profile,
        with_profile(config, profile).profiles.drop_last() == config.profiles,
        with_profile(config, profile).proxy_host == config.proxy_host,
        with_profile(config, profile).proxy_port == config.proxy_port,
        with_profile(config, profile).log_level == config.log_level,
{
    assert(with_profile(config, profile).profiles.drop_last() =~= config.profiles);
}

/// Removing takes away the profile at `at` where that is called `name` and none before it is; the
/// others stay, in their order, and nothing else changes.
pub proof fn law_remove_takes_the_first(config: ConfigView, name: Seq<char>, at: int)
    requires
        0 <= at < config.profiles.len(),
        config.profiles[at].name == name,
        forall|before: int| 0 <= before < at ==> config.profiles[before].name != name,
    ensures
        without_profile(config, name).profiles == config.profiles.take(at) + config.profiles.skip(
            at + 1,
        ),
        without_profile(config, name).proxy_host == config.proxy_host,
        without_profile(config, name).proxy_port == config.proxy_port,
        without_profile(config, name).log_level == config.log_level,
{
    assert(first_named(config.profiles, name, at));
    lemma_first_named_unique(config.profiles, name, at);
    assert(config.profiles.remove(at) =~= config.profiles.take(at) + config.profiles.skip(at + 1));
}

/// Showing a name gives the sheet of the profile at `at` where that is called so and none before it
/// is, with each of its custom headers; a name that no profile has gives an error that says so.
pub proof fn law_name_is_shown(profiles: Seq<ProfileView>, name: Seq<char>, at: int)
    ensures
        0 <= at < profiles.len() && profiles[at].name == name && (forall|before: int|
            0 <= before < at ==> profiles[before].name != name) ==> shown_profile(profiles, name)
            == Ok::<Seq<Seq<char>>, ProfileErrorView>(
            profile_sheet(
                profiles[at],
                shown_map(
                    Seq::new(
                        profiles[at].custom_headers.len(),
                        |i: int|
                            (
                                debug_string(profiles[at].custom_headers[i].0),
                                debug_string(profiles[at].custom_headers[i].1),
                            ),
                    ),
                ),
            ),
        ),
        (forall|i: int| 0 <= i < profiles.len() ==> profiles[i].name != name) ==> shown_profile(
            profiles,
            name,
        ) == Err::<Seq<Seq<char>>, ProfileErrorView>(ProfileErrorView::NotFound(name)),
{
    if 0 <= at < profiles.len() && profiles[at].name == name && (forall|before: int|
        0 <= before < at ==> profiles[before].name != name) {
        assert(first_named(profiles, name, at));
        lemma_lookup(profiles, name, at);
        assert(debug_entries(profiles[at].custom_headers) =~= Seq::new(
            profiles[at].custom_headers.len(),
            |i: int|
                (
                    debug_string(profiles[at].custom_headers[i].0),
                    debug_string(profiles[at].custom_headers[i].1),
                ),
        ));
    }
}

/// Adding a profile is refused just where one of its name is there already, whatever else the two
/// say; else the profile comes behind all others.
pub proof fn law_add_is_refused_for_a_taken_name(
    config: ConfigView,
    profile: ProfileView,
    at: int,
)
    ensures
        0 <= at < config.profiles.len() && config.profiles[at].name == profile.name ==> add_outcome(
            config,
            profile,
        ) == Err::<ConfigView, ProfileErrorView>(ProfileErrorView::AlreadyExists(profile.name)),
        (forall|i: int| 0 <= i < config.profiles.len() ==> config.profiles[i].name != profile.name)
            ==> add_outcome(config, profile) == Ok::<ConfigView, ProfileErrorView>(
            ConfigView { profiles: config.profiles.push(profile), ..config },
        ),
{
    if 0 <= at < config.profiles.len() && config.profiles[at].name == profile.name {
        assert(named(config.profiles, profile.name, at));
    }
}

/// Removing a name takes away the profile at `at` where that is called so and none before it is, and
/// leaves all else; it is refused just where no profile has the name.
pub proof fn law_remove_is_refused_for_an_unknown_name(
    config: ConfigView,
    name: Seq<char>,
    at: int,
)
    ensures
        0 <= at < config.profiles.len() && config.profiles[at].name == name && (forall|before: int|
            0 <= before < at ==> config.profiles[before].name != name) ==> remove_outcome(
            config,
            name,
        ) == Ok::<ConfigView, ProfileErrorView>(
            ConfigView {
                profiles: config.profiles.take(at) + config.profiles.skip(at + 1),
                ..config
            },
        ),
        (forall|i: int| 0 <= i < config.profiles.len() ==> config.profiles[i].name != name)
            ==> remove_outcome(config, name) == Err::<ConfigView, ProfileErrorView>(
            ProfileErrorView::NotFound(name),
        ),
{
    if 0 <= at < config.profiles.len() && config.profiles[at].name == name && (forall|before: int|
        0 <= before < at ==> config.profiles[before].name != name) {
        law_remove_takes_the_first(config, name, at);
        assert(named(config.profiles, name, at));
    }
}

} // verus!
