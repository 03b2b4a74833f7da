//! The curated table of language names and the reduction of a provider
//! language code to its generic two-character key.

use vstd::prelude::*;
use vstd::string::StrSliceExecFns;
use vstd::string::StringExecFns;
use crate::text::same_text;

verus! {

/// Number of entries of the curated table.
pub const LANGUAGE_COUNT: usize = 22;

/// The curated table: each language name, as the phonetic-alphabet reference
/// labels it, beside the provider language code that stands for it.
pub open spec fn curated_languages() -> Seq<(Seq<char>, Seq<char>)> {
    seq![
        ("Arabic"@, "arb"@),
        ("Catalan"@, "ca-ES"@),
        ("Mandarin"@, "cmn-CN"@),
        ("Welsh"@, "cy-GB"@),
        ("Danish"@, "da-DK"@),
        ("Standard German"@, "de-AT"@),
        ("English"@, "en-US"@),
        ("Spanish"@, "es-ES"@),
        ("French"@, "fr-CA"@),
        ("Hindi and Urdu"@, "hi-IN"@),
        ("Icelandic"@, "is-IS"@),
        ("Italian"@, "it-IT"@),
        ("Japanese"@, "ja-JP"@),
        ("Korean"@, "ko-KR"@),
        ("Norwegian"@, "nb-NO"@),
        ("Dutch"@, "nl-NL"@),
        ("Polish"@, "pl-PL"@),
        ("Portuguese"@, "pt-BR"@),
        ("Romanian"@, "ro-RO"@),
        ("Russian"@, "ru-RU"@),
        ("Swedish"@, "sv-SE"@),
        ("Turkish"@, "tr-TR"@),
    ]
}

/// The code beside the first entry of `table` that carries `name`.
pub open spec fn code_in(table: Seq<(Seq<char>, Seq<char>)>, name: Seq<char>) -> Option<
    Seq<char>,
>
    decreases table.len(),
{
    if table.len() == 0 {
        None
    } else if table[0].0 == name {
        Some(table[0].1)
    } else {
        code_in(table.subrange(1, table.len() as int), name)
    }
}

/// The provider language code of a language name, if the table lists the name.
pub open spec fn provider_code(name: Seq<char>) -> Option<Seq<char>> {
    code_in(curated_languages(), name)
}

/// Whether a provider language code is long enough to yield a generic key.
pub open spec fn has_generic_key(code: Seq<char>) -> bool {
    code.len() >= 2
}

/// The generic language key of a provider language code: its first two
/// characters.
pub open spec fn generic_key(code: Seq<char>) -> Seq<char> {
    code.subrange(0, 2)
}

/// The generic language key that a language name resolves to.
pub open spec fn generic_language(name: Seq<char>) -> Option<Seq<char>> {
    match provider_code(name) {
        Some(code) => Some(generic_key(code)),
        None => None,
    }
}

/// Every code of the curated table is long enough to yield a generic key.
pub proof fn lemma_curated_codes_have_keys()
    ensures
        curated_languages().len() == LANGUAGE_COUNT,
        forall|i: int|
            0 <= i < curated_languages().len() ==> has_generic_key(
                #[trigger] curated_languages()[i].1,
            ),
{
    reveal_strlit("arb");
    reveal_strlit("ca-ES");
    reveal_strlit("cmn-CN");
    reveal_strlit("cy-GB");
    reveal_strlit("da-DK");
    reveal_strlit("de-AT");
    reveal_strlit("en-US");
    reveal_strlit("es-ES");
    reveal_strlit("fr-CA");
    reveal_strlit("hi-IN");
    reveal_strlit("is-IS");
    reveal_strlit("it-IT");
    reveal_strlit("ja-JP");
    reveal_strlit("ko-KR");
    reveal_strlit("nb-NO");
    reveal_strlit("nl-NL");
    reveal_strlit("pl-PL");
    reveal_strlit("pt-BR");
    reveal_strlit("ro-RO");
    reveal_strlit("ru-RU");
    reveal_strlit("sv-SE");
    reveal_strlit("tr-TR");
}

/// The length and the first two characters of a name.
pub open spec fn mark_of(name: Seq<char>) -> (nat, char, char) {
    (name.len(), name[0], name[1])
}

/// No language name stands twice in the curated table.
pub proof fn lemma_curated_names_differ()
    ensures
        forall|i: int, j: int|
            0 <= i < j < curated_languages().len() ==> (#[trigger] curated_languages()[i]).0 != (
            #[trigger] curated_languages()[j]).0,
{
    reveal_strlit("Arabic");
    reveal_strlit("Catalan");
    reveal_strlit("Mandarin");
    reveal_strlit("Welsh");
    reveal_strlit("Danish");
    reveal_strlit("Standard German");
    reveal_strlit("English");
    reveal_strlit("Spanish");
    reveal_strlit("French");
    reveal_strlit("Hindi and Urdu");
    reveal_strlit("Icelandic");
    reveal_strlit("Italian");
    reveal_strlit("Japanese");
    reveal_strlit("Korean");
    reveal_strlit("Norwegian");
    reveal_strlit("Dutch");
    reveal_strlit("Polish");
    reveal_strlit("Portuguese");
    reveal_strlit("Romanian");
    reveal_strlit("Russian");
    reveal_strlit("Swedish");
    reveal_strlit("Turkish");
    let table = curated_languages();
    assert(mark_of(table[0].0) == (6nat, 'A', 'r'));
    assert(mark_of(table[1].0) == (7nat, 'C', 'a'));
    assert(mark_of(table[2].0) == (8nat, 'M', 'a'));
    assert(mark_of(table[3].0) == (5nat, 'W', 'e'));
    assert(mark_of(table[4].0) == (6nat, 'D', 'a'));
    assert(mark_of(table[5].0) == (15nat, 'S', 't'));
    assert(mark_of(table[6].0) == (7nat, 'E', 'n'));
    assert(mark_of(table[7].0) == (7nat, 'S', 'p'));
    assert(mark_of(table[8].0) == (6nat, 'F', 'r'));
    assert(mark_of(table[9].0) == (14nat, 'H', 'i'));
    assert(mark_of(table[10].0) == (9nat, 'I', 'c'));
    assert(mark_of(table[11].0) == (7nat, 'I', 't'));
    assert(mark_of(table[12].0) == (8nat, 'J', 'a'));
    assert(mark_of(table[13].0) == (6nat, 'K', 'o'));
    assert(mark_of(table[14].0) == (9nat, 'N', 'o'));
    assert(mark_of(table[15].0) == (5nat, 'D', 'u'));
    assert(mark_of(table[16].0) == (6nat, 'P', 'o'));
    assert(mark_of(table[17].0) == (10nat, 'P', 'o'));
    assert(mark_of(table[18].0) == (8nat, 'R', 'o'));
    assert(mark_of(table[19].0) == (7nat, 'R', 'u'));
    assert(mark_of(table[20].0) == (7nat, 'S', 'w'));
    assert(mark_of(table[21].0) == (7nat, 'T', 'u'));
    assert forall|i: int, j: int| 0 <= i < j < table.len() implies (#[trigger] table[i]).0 != (
    #[trigger] table[j]).0 by {
        assert(mark_of(table[i].0) != mark_of(table[j].0));
    }
}

/// The first entry of a table that carries a name decides its code.
pub proof fn lemma_code_in_at(table: Seq<(Seq<char>, Seq<char>)>, name: Seq<char>, place: int)
    requires
        0 <= place < table.len(),
        table[place].0 == name,
        forall|j: int| 0 <= j < place ==> (#[trigger] table[j]).0 != name,
    ensures
        code_in(table, name) == Some(table[place].1),
    decreases table.len(),
{
    if place > 0 {
        let rest = table.subrange(1, table.len() as int);
        assert(table[0].0 != name);
        assert(rest[place - 1] == table[place]);
        assert forall|j: int| 0 <= j < place - 1 implies (#[trigger] rest[j]).0 != name by {
            assert(rest[j] == table[j + 1]);
        }
        lemma_code_in_at(rest, name, place - 1);
    }
}

/// A name that no entry of a table carries has no code.
pub proof fn lemma_code_in_none(table: Seq<(Seq<char>, Seq<char>)>, name: Seq<char>)
    requires
        forall|j: int| 0 <= j < table.len() ==> (#[trigger] table[j]).0 != name,
    ensures
        code_in(table, name) is None,
    decreases table.len(),
{
    if table.len() > 0 {
        let rest = table.subrange(1, table.len() as int);
        assert(table[0].0 != name);
        assert forall|j: int| 0 <= j < rest.len() implies (#[trigger] rest[j]).0 != name by {
            assert(rest[j] == table[j + 1]);
        }
        lemma_code_in_none(rest, name);
    }
}

/// The curated table maps each of its names to the code beside it.
pub proof fn lemma_curated_table_is_a_mapping(place: int)
    requires
        0 <= place < curated_languages().len(),
    ensures
        provider_code(curated_languages()[place].0) == Some(curated_languages()[place].1),
        generic_language(curated_languages()[place].0) == Some(
            generic_key(curated_languages()[place].1),
        ),
{
    let table = curated_languages();
    lemma_curated_names_differ();
    assert forall|j: int| 0 <= j < place implies (#[trigger] table[j]).0 != table[place].0 by {}
    lemma_code_in_at(table, table[place].0, place);
}

/// A name that the curated table does not list has no provider code and
/// resolves to no generic key.
pub proof fn lemma_unlisted_name_has_no_code(name: Seq<char>)
    requires
        forall|j: int|
            0 <= j < curated_languages().len() ==> (#[trigger] curated_languages()[j]).0 != name,
    ensures
        provider_code(name) is None,
        generic_language(name) is None,
{
    lemma_code_in_none(curated_languages(), name);
}

/// The curated table as values: the entries of `curated_languages`, in order.
pub fn language_table() -> (table: [(&'static str, &'static str); LANGUAGE_COUNT])
    ensures
        table@.len() == curated_languages().len(),
        forall|i: int|
            0 <= i < table@.len() ==> (#[trigger] table@[i]).0@ == curated_languages()[i].0
                && table@[i].1@ == curated_languages()[i].1,
{
    [
        ("Arabic", "arb"),
        ("Catalan", "ca-ES"),
        ("Mandarin", "cmn-CN"),
        ("Welsh", "cy-GB"),
        ("Danish", "da-DK"),
        ("Standard German", "de-AT"),
        ("English", "en-US"),
        ("Spanish", "es-ES"),
        ("French", "fr-CA"),
        ("Hindi and Urdu", "hi-IN"),
        ("Icelandic", "is-IS"),
        ("Italian", "it-IT"),
        ("Japanese", "ja-JP"),
        ("Korean", "ko-KR"),
        ("Norwegian", "nb-NO"),
        ("Dutch", "nl-NL"),
        ("Polish", "pl-PL"),
        ("Portuguese", "pt-BR"),
        ("Romanian", "ro-RO"),
        ("Russian", "ru-RU"),
        ("Swedish", "sv-SE"),
        ("Turkish", "tr-TR"),
    ]
}

/// Looks a language name up in the curated table.
pub fn language_to_code(name: &str) -> (code: Option<&'static str>)
    ensures
        match code {
            Some(c) => provider_code(name@) == Some(c@) && has_generic_key(c@),
            None => provider_code(name@) is None,
        },
{
    let table = language_table();
    let ghost full = curated_languages();
    proof {
        lemma_curated_codes_have_keys();
        assert(full.subrange(0, full.len() as int) =~= full);
    }
    let mut i: usize = 0;
    while i < LANGUAGE_COUNT
        invariant
            i <= LANGUAGE_COUNT,
            full == curated_languages(),
            full.len() == LANGUAGE_COUNT,
            table@.len() == LANGUAGE_COUNT,
            forall|j: int|
                0 <= j < full.len() ==> (#[trigger] table@[j]).0@ == full[j].0 && table@[j].1@
                    == full[j].1,
            forall|j: int| 0 <= j < full.len() ==> has_generic_key(#[trigger] full[j].1),
            code_in(full, name@) == code_in(full.subrange(i as int, full.len() as int), name@),
        decreases LANGUAGE_COUNT - i,
    {
        let entry = table[i];
        proof {
            let rest = full.subrange(i as int, full.len() as int);
            assert(rest[0] == full[i as int]);
            assert(rest.subrange(1, rest.len() as int) =~= full.subrange(
                i + 1,
                full.len() as int,
            ));
        }
        if same_text(entry.0, name) {
            assert(has_generic_key(full[i as int].1));
            return Some(entry.1);
        }
        i += 1;
    }
    None
}

/// Reduces a provider language code to its generic language key.
pub fn generic_language_from_code(master_code: &str) -> (key: String)
    requires
        has_generic_key(master_code@),
    ensures
        key@ == generic_key(master_code@),
{
    String::from_str(master_code.substring_char(0, 2))
}

/// The refusal of a language name that the curated table does not list.
#[derive(Clone, Copy, Debug, PartialEq, Eq, Structural)]
pub struct UnsupportedLanguage;

/// Resolves a language name to its generic language key: the first two
/// characters of the provider code that the curated table gives it.
pub fn resolve(name: &str) -> (key: Result<String, UnsupportedLanguage>)
    ensures
        match key {
            Ok(k) => generic_language(name@) == Some(k@),
            Err(_) => generic_language(name@) is None,
        },
{
    match language_to_code(name) {
        Some(code) => Ok(generic_language_from_code(code)),
        None => Err(UnsupportedLanguage),
    }
}

} // verus!
