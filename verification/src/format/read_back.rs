//! What reading back written agent and egg blocks gives of the agent or egg.
use vstd::prelude::*;
use crate::file_helper::{or_empty, path_file_stem};
use crate::text::{decimal, is_plain_ascii};
use vstd::utf8::{encode_utf8, decode_utf8, valid_utf8, decode_utf8_encode_utf8};
use super::file_block::{FileView, full_name};
use super::gb_block::{GardenBoxView, gb_tag, gb_int_entries, gb_str_entries, gb_block_bytes, gb_block_storable, spec_gb_blocks, lemma_read_written_gb_block};
use super::egg_block::{EggView, egg_tag, egg_block_bytes, egg_block_storable, listed_files, spec_egg, spec_genetics_file_name, lemma_read_written_egg_block};
use crate::error::Error;
use super::pray::{spec_read_block, spec_read_blocks, spec_decode, prepend_blocks, block_bytes, pray_bytes, padded, file_reads_back, file_read_back, dependencies_read_back, lemma_read_file_then, lemma_read_dependency_blocks, lemma_read_write_string, lemma_read_in_turn, BlockView, TagView, dependencies_upto, spec_get_dependencies, tag_is_storable, lookup_int, lookup_str, int_or_zero, dependency_key, dependency_category_key, dependency_name_entries, dependency_category_entries};
use super::agent_block::{script_dependency_names, scripts_upto, spec_get_scripts, script_file_name, scripts_are_text, agent_block_bytes, agent_block_storable, lemma_read_written_agent_block, AgentView, DescriptionView, GameSupport, Language, agent_tag, agent_int_entries, agent_str_entries, script_key, script_entries, description_entries, language_key, spec_agent_blocks, spec_get_descriptions, selected_files};

verus! {

/// The text of the last description in `language`, if any.
pub open spec fn latest_description(ds: Seq<DescriptionView>, language: Language) -> Option<Seq<char>>
    decreases ds.len(),
{
    if ds.len() == 0 {
        None
    } else if ds.last().language == language {
        Some(ds.last().text)
    } else {
        latest_description(ds.drop_last(), language)
    }
}

/// The last description in `language`, as a list of at most one.
pub open spec fn latest_in(ds: Seq<DescriptionView>, language: Language) -> Seq<DescriptionView> {
    match latest_description(ds, language) {
        Some(text) => seq![DescriptionView { language, text }],
        None => Seq::empty(),
    }
}

/// The last description in each language, in the order English, German, Spanish,
/// French, Italian, Dutch.
pub open spec fn latest_descriptions(ds: Seq<DescriptionView>) -> Seq<DescriptionView> {
    latest_in(ds, Language::English) + latest_in(ds, Language::German) + latest_in(ds, Language::Spanish)
        + latest_in(ds, Language::French) + latest_in(ds, Language::Italian) + latest_in(ds, Language::Dutch)
}

proof fn lemma_differ_at(s: Seq<char>, t: Seq<char>, i: int)
    requires
        0 <= i < s.len(),
        i < t.len(),
        s[i] != t[i],
    ensures
        s != t,
{
}

proof fn lemma_lookup_str_after(s1: Seq<(Seq<char>, Seq<char>)>, s2: Seq<(Seq<char>, Seq<char>)>, k: Seq<char>)
    ensures
        lookup_str(s1 + s2, k) == match lookup_str(s2, k) {
            Some(v) => Some(v),
            None => lookup_str(s1, k),
        },
    decreases s2.len(),
{
    if s2.len() == 0 {
        assert(s1 + s2 =~= s1);
    } else {
        assert((s1 + s2).drop_last() =~= s1 + s2.drop_last());
        assert((s1 + s2).last() == s2.last());
        lemma_lookup_str_after(s1, s2.drop_last(), k);
    }
}

proof fn lemma_lookup_int_after(s1: Seq<(Seq<char>, u32)>, s2: Seq<(Seq<char>, u32)>, k: Seq<char>)
    ensures
        lookup_int(s1 + s2, k) == match lookup_int(s2, k) {
            Some(v) => Some(v),
            None => lookup_int(s1, k),
        },
    decreases s2.len(),
{
    if s2.len() == 0 {
        assert(s1 + s2 =~= s1);
    } else {
        assert((s1 + s2).drop_last() =~= s1 + s2.drop_last());
        assert((s1 + s2).last() == s2.last());
        lemma_lookup_int_after(s1, s2.drop_last(), k);
    }
}

proof fn lemma_lookup_str_missing(s: Seq<(Seq<char>, Seq<char>)>, k: Seq<char>)
    requires
        forall|i: int| 0 <= i < s.len() ==> (#[trigger] s[i]).0 != k,
    ensures
        lookup_str(s, k) is None,
    decreases s.len(),
{
    if s.len() > 0 {
        assert(s.last() == s[s.len() - 1]);
        assert forall|i: int| 0 <= i < s.drop_last().len() implies (#[trigger] s.drop_last()[i]).0 != k by {
            assert(s.drop_last()[i] == s[i]);
        }
        lemma_lookup_str_missing(s.drop_last(), k);
    }
}

proof fn lemma_lookup_int_missing(s: Seq<(Seq<char>, u32)>, k: Seq<char>)
    requires
        forall|i: int| 0 <= i < s.len() ==> (#[trigger] s[i]).0 != k,
    ensures
        lookup_int(s, k) is None,
    decreases s.len(),
{
    if s.len() > 0 {
        assert(s.last() == s[s.len() - 1]);
        assert forall|i: int| 0 <= i < s.drop_last().len() implies (#[trigger] s.drop_last()[i]).0 != k by {
            assert(s.drop_last()[i] == s[i]);
        }
        lemma_lookup_int_missing(s.drop_last(), k);
    }
}

/// The characters of the keys that tell them apart.
proof fn lemma_key_chars()
    ensures
        "Remove script"@.len() == 13 && "Remove script"@[0] == 'R',
        "Web Label"@.len() == 9 && "Web Label"@[0] == 'W',
        "Web URL"@.len() == 7 && "Web URL"@[0] == 'W',
        "Agent Animation Gallery"@.len() == 23 && "Agent Animation Gallery"@[0] == 'A'
            && "Agent Animation Gallery"@[6] == 'A' && "Agent Animation Gallery"@[16] == 'G',
        "Agent Animation File"@.len() == 20 && "Agent Animation File"@[0] == 'A'
            && "Agent Animation File"@[6] == 'A' && "Agent Animation File"@[16] == 'F',
        "Agent Animation String"@.len() == 22 && "Agent Animation String"@[0] == 'A'
            && "Agent Animation String"@[6] == 'A' && "Agent Animation String"@[16] == 'S',
        "Agent Description"@.len() == 17 && "Agent Description"@[0] == 'A' && "Agent Description"@[6] == 'D',
        "Agent Description-de"@.len() == 20 && "Agent Description-de"@[0] == 'A'
            && "Agent Description-de"@[6] == 'D' && "Agent Description-de"@[18] == 'd',
        "Agent Description-es"@.len() == 20 && "Agent Description-es"@[0] == 'A'
            && "Agent Description-es"@[6] == 'D' && "Agent Description-es"@[18] == 'e',
        "Agent Description-fr"@.len() == 20 && "Agent Description-fr"@[0] == 'A'
            && "Agent Description-fr"@[6] == 'D' && "Agent Description-fr"@[18] == 'f',
        "Agent Description-it"@.len() == 20 && "Agent Description-it"@[0] == 'A'
            && "Agent Description-it"@[6] == 'D' && "Agent Description-it"@[18] == 'i',
        "Agent Description-nl"@.len() == 20 && "Agent Description-nl"@[0] == 'A'
            && "Agent Description-nl"@[6] == 'D' && "Agent Description-nl"@[18] == 'n',
        "Agent Type"@.len() == 10 && "Agent Type"@[0] == 'A' && "Agent Type"@[6] == 'T',
        "Agent Bioenergy Value"@.len() == 21 && "Agent Bioenergy Value"@[0] == 'A' && "Agent Bioenergy Value"@[6] == 'B',
        "Agent Sprite First Image"@.len() == 24 && "Agent Sprite First Image"@[0] == 'A'
            && "Agent Sprite First Image"@[6] == 'S',
        "Dependency Count"@.len() == 16 && "Dependency Count"@[0] == 'D',
        "Script Count"@.len() == 12 && "Script Count"@[0] == 'S',
        "Script "@.len() == 7 && "Script "@[0] == 'S',
        "Dependency "@.len() == 11 && "Dependency "@[0] == 'D',
        "Dependency Category "@.len() == 20 && "Dependency Category "@[0] == 'D',
{
    reveal_strlit("Remove script");
    reveal_strlit("Web Label");
    reveal_strlit("Web URL");
    reveal_strlit("Agent Animation Gallery");
    reveal_strlit("Agent Animation File");
    reveal_strlit("Agent Animation String");
    reveal_strlit("Agent Description");
    reveal_strlit("Agent Description-de");
    reveal_strlit("Agent Description-es");
    reveal_strlit("Agent Description-fr");
    reveal_strlit("Agent Description-it");
    reveal_strlit("Agent Description-nl");
    reveal_strlit("Agent Type");
    reveal_strlit("Agent Bioenergy Value");
    reveal_strlit("Agent Sprite First Image");
    reveal_strlit("Dependency Count");
    reveal_strlit("Script Count");
    reveal_strlit("Script ");
    reveal_strlit("Dependency ");
    reveal_strlit("Dependency Category ");
}


proof fn lemma_script_entry_keys(scripts: Seq<super::file_block::FileView>)
    ensures
        forall|i: int| 0 <= i < scripts.len() ==> (#[trigger] script_entries(scripts)[i]).0.len() >= 7
            && script_entries(scripts)[i].0[0] == 'S',
{
    lemma_key_chars();
    assert forall|i: int| 0 <= i < scripts.len() implies (#[trigger] script_entries(scripts)[i]).0.len() >= 7
        && script_entries(scripts)[i].0[0] == 'S' by {
        let k = script_key((i + 1) as nat);
        assert(script_entries(scripts)[i].0 == k);
        assert(k[0] == "Script "@[0]);
    }
}

proof fn lemma_dependency_name_keys(others: Seq<super::file_block::FileView>)
    ensures
        forall|i: int| 0 <= i < others.len() ==> (#[trigger] dependency_name_entries(others)[i]).0.len() >= 11
            && dependency_name_entries(others)[i].0[0] == 'D',
{
    lemma_key_chars();
    assert forall|i: int| 0 <= i < others.len() implies (#[trigger] dependency_name_entries(others)[i]).0.len() >= 11
        && dependency_name_entries(others)[i].0[0] == 'D' by {
        let k = dependency_key((i + 1) as nat);
        assert(dependency_name_entries(others)[i].0 == k);
        assert(k[0] == "Dependency "@[0]);
    }
}

proof fn lemma_category_keys(others: Seq<super::file_block::FileView>)
    ensures
        forall|i: int| 0 <= i < others.len() ==> (#[trigger] dependency_category_entries(others)[i]).0.len() >= 20
            && dependency_category_entries(others)[i].0[0] == 'D',
{
    lemma_key_chars();
    assert forall|i: int| 0 <= i < others.len() implies (#[trigger] dependency_category_entries(others)[i]).0.len() >= 20
        && dependency_category_entries(others)[i].0[0] == 'D' by {
        let k = dependency_category_key((i + 1) as nat);
        assert(dependency_category_entries(others)[i].0 == k);
        assert(k[0] == "Dependency Category "@[0]);
    }
}

proof fn lemma_language_key_chars(language: Language)
    ensures
        language_key(language).len() >= 17,
        language_key(language)[0] == 'A',
        language_key(language)[6] == 'D',
{
    lemma_key_chars();
}

proof fn lemma_description_keys(ds: Seq<DescriptionView>)
    ensures
        forall|i: int| 0 <= i < ds.len() ==> (#[trigger] description_entries(ds)[i]).0.len() >= 17
            && description_entries(ds)[i].0[0] == 'A' && description_entries(ds)[i].0[6] == 'D',
{
    assert forall|i: int| 0 <= i < ds.len() implies (#[trigger] description_entries(ds)[i]).0.len() >= 17
        && description_entries(ds)[i].0[0] == 'A' && description_entries(ds)[i].0[6] == 'D' by {
        lemma_language_key_chars(ds[i].language);
    }
}

/// Different languages have different keys.
proof fn lemma_language_keys_differ(l1: Language, l2: Language)
    requires
        l1 != l2,
    ensures
        language_key(l1) != language_key(l2),
{
    lemma_key_chars();
    let k1 = language_key(l1);
    let k2 = language_key(l2);
    if k1.len() == k2.len() {
        assert(k1[18] != k2[18]);
    }
}

proof fn lemma_lookup_descriptions(ds: Seq<DescriptionView>, language: Language)
    ensures
        lookup_str(description_entries(ds), language_key(language)) == latest_description(ds, language),
    decreases ds.len(),
{
    if ds.len() > 0 {
        let es = description_entries(ds);
        assert(es.drop_last() =~= description_entries(ds.drop_last()));
        assert(es.last() == (language_key(ds.last().language), ds.last().text));
        if ds.last().language != language {
            lemma_language_keys_differ(ds.last().language, language);
        }
        lemma_lookup_descriptions(ds.drop_last(), language);
    }
}


/// The animation entries written for an agent.
pub open spec fn animation_entries(a: AgentView) -> Seq<(Seq<char>, Seq<char>)> {
    seq![
        ("Agent Animation Gallery"@, or_empty(path_file_stem(a.animation_file))),
        ("Agent Animation File"@, a.animation_file),
        ("Agent Animation String"@, a.animation_string),
    ]
}

/// The entries written for an agent's game: none for Creatures 3; for Docking Station
/// the web label and address, then the descriptions.
pub open spec fn game_entries(a: AgentView) -> Seq<(Seq<char>, Seq<char>)> {
    if a.game_support == GameSupport::Creatures3 {
        Seq::empty()
    } else {
        seq![("Web Label"@, a.web_label), ("Web URL"@, a.web_url)] + description_entries(a.descriptions)
    }
}

proof fn lemma_str_entries_shape(a: AgentView, deps: Seq<FileView>)
    ensures
        agent_str_entries(a, deps) == (animation_entries(a) + game_entries(a)
            + dependency_name_entries(selected_files(a.dependencies, deps, false))).push(("Remove script"@, a.remove_script))
            + script_entries(selected_files(a.dependencies, deps, true)),
{
}

/// Looking up a key that starts with neither `D`, `R` nor `S` in an agent's string
/// entries looks only at the animation and game entries.
proof fn lemma_lookup_front(a: AgentView, deps: Seq<FileView>, k: Seq<char>)
    requires
        k.len() > 0,
        k[0] != 'D' && k[0] != 'R' && k[0] != 'S',
    ensures
        lookup_str(agent_str_entries(a, deps), k) == lookup_str(animation_entries(a) + game_entries(a), k),
{
    let scripts = selected_files(a.dependencies, deps, true);
    let others = selected_files(a.dependencies, deps, false);
    let front = animation_entries(a) + game_entries(a);
    let dn = dependency_name_entries(others);
    let body = (front + dn).push(("Remove script"@, a.remove_script));
    let se = script_entries(scripts);
    lemma_str_entries_shape(a, deps);
    lemma_key_chars();
    lemma_script_entry_keys(scripts);
    lemma_dependency_name_keys(others);
    assert forall|i: int| 0 <= i < se.len() implies (#[trigger] se[i]).0 != k by {
        lemma_differ_at(se[i].0, k, 0);
    }
    lemma_lookup_str_missing(se, k);
    lemma_lookup_str_after(body, se, k);
    lemma_differ_at("Remove script"@, k, 0);
    assert(body.drop_last() =~= front + dn);
    assert forall|i: int| 0 <= i < dn.len() implies (#[trigger] dn[i]).0 != k by {
        lemma_differ_at(dn[i].0, k, 0);
    }
    lemma_lookup_str_missing(dn, k);
    lemma_lookup_str_after(front, dn, k);
}

/// Reading back an agent's remove script.
proof fn lemma_remove_script_back(a: AgentView, deps: Seq<FileView>)
    ensures
        lookup_str(agent_str_entries(a, deps), "Remove script"@) == Some(a.remove_script),
{
    let scripts = selected_files(a.dependencies, deps, true);
    let others = selected_files(a.dependencies, deps, false);
    let body = (animation_entries(a) + game_entries(a) + dependency_name_entries(others)).push(("Remove script"@, a.remove_script));
    let se = script_entries(scripts);
    lemma_str_entries_shape(a, deps);
    lemma_key_chars();
    lemma_script_entry_keys(scripts);
    assert forall|i: int| 0 <= i < se.len() implies (#[trigger] se[i]).0 != "Remove script"@ by {
        lemma_differ_at(se[i].0, "Remove script"@, 0);
    }
    lemma_lookup_str_missing(se, "Remove script"@);
    lemma_lookup_str_after(body, se, "Remove script"@);
}

/// Looking up an animation key looks only at the animation entries.
proof fn lemma_lookup_animation(a: AgentView, k: Seq<char>)
    requires
        k.len() > 6,
        k[0] == 'A' && k[6] == 'A',
    ensures
        lookup_str(animation_entries(a) + game_entries(a), k) == lookup_str(animation_entries(a), k),
{
    let g = game_entries(a);
    lemma_key_chars();
    lemma_description_keys(a.descriptions);
    assert forall|i: int| 0 <= i < g.len() implies (#[trigger] g[i]).0 != k by {
        if a.game_support != GameSupport::Creatures3 {
            if i < 2 {
                lemma_differ_at(g[i].0, k, 0);
            } else {
                assert(g[i] == description_entries(a.descriptions)[i - 2]);
                lemma_differ_at(g[i].0, k, 6);
            }
        }
    }
    lemma_lookup_str_missing(g, k);
    lemma_lookup_str_after(animation_entries(a), g, k);
}

/// Reading back an agent's animation file and string.
proof fn lemma_animation_back(a: AgentView, deps: Seq<FileView>)
    ensures
        lookup_str(agent_str_entries(a, deps), "Agent Animation File"@) == Some(a.animation_file),
        lookup_str(agent_str_entries(a, deps), "Agent Animation String"@) == Some(a.animation_string),
{
    lemma_key_chars();
    lemma_lookup_front(a, deps, "Agent Animation File"@);
    lemma_lookup_front(a, deps, "Agent Animation String"@);
    lemma_lookup_animation(a, "Agent Animation File"@);
    lemma_lookup_animation(a, "Agent Animation String"@);
    let an = animation_entries(a);
    lemma_differ_at("Agent Animation String"@, "Agent Animation File"@, 16);
    assert(an.drop_last().last() == ("Agent Animation File"@, a.animation_file));
    assert(lookup_str(an.drop_last(), "Agent Animation File"@) == Some(a.animation_file));
}


/// Reading back an agent's web label and address: written for Docking Station only.
proof fn lemma_web_back(a: AgentView, deps: Seq<FileView>)
    ensures
        lookup_str(agent_str_entries(a, deps), "Web Label"@) == if a.game_support == GameSupport::Creatures3 {
            None
        } else {
            Some(a.web_label)
        },
        lookup_str(agent_str_entries(a, deps), "Web URL"@) == if a.game_support == GameSupport::Creatures3 {
            None
        } else {
            Some(a.web_url)
        },
{
    lemma_key_chars();
    lemma_lookup_front(a, deps, "Web Label"@);
    lemma_lookup_front(a, deps, "Web URL"@);
    let an = animation_entries(a);
    assert forall|i: int| 0 <= i < an.len() implies (#[trigger] an[i]).0 != "Web Label"@ && an[i].0 != "Web URL"@ by {
        lemma_differ_at(an[i].0, "Web Label"@, 0);
        lemma_differ_at(an[i].0, "Web URL"@, 0);
    }
    if a.game_support == GameSupport::Creatures3 {
        assert(an + game_entries(a) =~= an);
        lemma_lookup_str_missing(an, "Web Label"@);
        lemma_lookup_str_missing(an, "Web URL"@);
    } else {
        let web = seq![("Web Label"@, a.web_label), ("Web URL"@, a.web_url)];
        let de = description_entries(a.descriptions);
        lemma_description_keys(a.descriptions);
        assert(an + game_entries(a) =~= (an + web) + de);
        assert forall|i: int| 0 <= i < de.len() implies (#[trigger] de[i]).0 != "Web Label"@ && de[i].0 != "Web URL"@ by {
            lemma_differ_at(de[i].0, "Web Label"@, 0);
            lemma_differ_at(de[i].0, "Web URL"@, 0);
        }
        lemma_lookup_str_missing(de, "Web Label"@);
        lemma_lookup_str_missing(de, "Web URL"@);
        lemma_lookup_str_after(an + web, de, "Web Label"@);
        lemma_lookup_str_after(an + web, de, "Web URL"@);
        assert((an + web).drop_last().last() == ("Web Label"@, a.web_label));
        assert(lookup_str((an + web).drop_last(), "Web Label"@) == Some(a.web_label));
    }
}

/// Reading back the description in one language: the last one written in it, for
/// Docking Station; none for Creatures 3.
proof fn lemma_description_back(a: AgentView, deps: Seq<FileView>, language: Language)
    ensures
        lookup_str(agent_str_entries(a, deps), language_key(language)) == if a.game_support == GameSupport::Creatures3 {
            None
        } else {
            latest_description(a.descriptions, language)
        },
{
    let k = language_key(language);
    lemma_key_chars();
    lemma_language_key_chars(language);
    lemma_lookup_front(a, deps, k);
    let an = animation_entries(a);
    assert forall|i: int| 0 <= i < an.len() implies (#[trigger] an[i]).0 != k by {
        lemma_differ_at(an[i].0, k, 6);
    }
    lemma_lookup_str_missing(an, k);
    if a.game_support == GameSupport::Creatures3 {
        assert(an + game_entries(a) =~= an);
    } else {
        let web = seq![("Web Label"@, a.web_label), ("Web URL"@, a.web_url)];
        let de = description_entries(a.descriptions);
        assert(an + game_entries(a) =~= (an + web) + de);
        assert forall|i: int| 0 <= i < (an + web).len() implies (#[trigger] (an + web)[i]).0 != k by {
            if i < 3 {
                assert((an + web)[i] == an[i]);
            } else {
                lemma_differ_at((an + web)[i].0, k, 0);
            }
        }
        lemma_lookup_str_missing(an + web, k);
        lemma_lookup_str_after(an + web, de, k);
        lemma_lookup_descriptions(a.descriptions, language);
    }
}

/// The descriptions read back of a written agent: none for Creatures 3; for Docking
/// Station the last one written in each language, in the order English, German,
/// Spanish, French, Italian, Dutch.
proof fn lemma_descriptions_back(a: AgentView, deps: Seq<FileView>)
    ensures
        spec_get_descriptions(agent_tag(a, deps)) == if a.game_support == GameSupport::Creatures3 {
            Seq::<DescriptionView>::empty()
        } else {
            latest_descriptions(a.descriptions)
        },
{
    lemma_description_back(a, deps, Language::English);
    lemma_description_back(a, deps, Language::German);
    lemma_description_back(a, deps, Language::Spanish);
    lemma_description_back(a, deps, Language::French);
    lemma_description_back(a, deps, Language::Italian);
    lemma_description_back(a, deps, Language::Dutch);
    let t = agent_tag(a, deps);
    if a.game_support == GameSupport::Creatures3 {
        assert(spec_get_descriptions(t) =~= Seq::<DescriptionView>::empty());
    } else {
        assert(spec_get_descriptions(t) =~= latest_descriptions(a.descriptions));
    }
}


/// Looking up an integer whose key starts with `Agent ` and not `Agent T` in an agent's
/// integer entries looks only at the second entry.
proof fn lemma_lookup_int_front(a: AgentView, deps: Seq<FileView>, k: Seq<char>)
    requires
        k.len() > 6,
        k[0] == 'A' && k[6] != 'T',
    ensures
        lookup_int(agent_int_entries(a, deps), k) == lookup_int(agent_int_entries(a, deps).take(2), k),
{
    let others = selected_files(a.dependencies, deps, false);
    let ints = agent_int_entries(a, deps);
    let head = ints.take(2);
    let cats = dependency_category_entries(others);
    let x = head.push(("Dependency Count"@, others.len() as u32));
    lemma_key_chars();
    lemma_category_keys(others);
    lemma_differ_at("Script Count"@, k, 0);
    assert(ints.drop_last() =~= x + cats);
    assert forall|i: int| 0 <= i < cats.len() implies (#[trigger] cats[i]).0 != k by {
        lemma_differ_at(cats[i].0, k, 0);
    }
    lemma_lookup_int_missing(cats, k);
    lemma_lookup_int_after(x, cats, k);
    lemma_differ_at("Dependency Count"@, k, 0);
    assert(x.drop_last() =~= head);
}

/// Reading back an agent's bioenergy (Creatures 3) and first sprite image (Docking
/// Station): each is written for its game only.
proof fn lemma_ints_back(a: AgentView, deps: Seq<FileView>)
    ensures
        lookup_int(agent_int_entries(a, deps), "Agent Bioenergy Value"@) == if a.game_support == GameSupport::Creatures3 {
            Some(a.bioenergy)
        } else {
            None
        },
        lookup_int(agent_int_entries(a, deps), "Agent Sprite First Image"@) == if a.game_support == GameSupport::Creatures3 {
            None
        } else {
            Some(a.sprite_first_image)
        },
{
    lemma_key_chars();
    lemma_lookup_int_front(a, deps, "Agent Bioenergy Value"@);
    lemma_lookup_int_front(a, deps, "Agent Sprite First Image"@);
    let head = agent_int_entries(a, deps).take(2);
    lemma_differ_at("Agent Type"@, "Agent Bioenergy Value"@, 6);
    lemma_differ_at("Agent Type"@, "Agent Sprite First Image"@, 6);
    lemma_differ_at("Agent Bioenergy Value"@, "Agent Sprite First Image"@, 6);
    assert(head.drop_last() =~= seq![("Agent Type"@, 0u32)]);
    assert(head.drop_last().drop_last() =~= Seq::<(Seq<char>, u32)>::empty());
    assert(lookup_int(head.drop_last().drop_last(), "Agent Bioenergy Value"@) is None);
    assert(lookup_int(head.drop_last().drop_last(), "Agent Sprite First Image"@) is None);
    assert(lookup_int(head.drop_last(), "Agent Bioenergy Value"@) is None);
    assert(lookup_int(head.drop_last(), "Agent Sprite First Image"@) is None);
}




/// The entry at `j` is what looking up its key finds, when no later entry has that key.
proof fn lemma_lookup_at(s: Seq<(Seq<char>, Seq<char>)>, j: int)
    requires
        0 <= j < s.len(),
        forall|m: int| j < m < s.len() ==> (#[trigger] s[m]).0 != s[j].0,
    ensures
        lookup_str(s, s[j].0) == Some(s[j].1),
{
    let k = s[j].0;
    let front = s.take(j + 1);
    let back = s.skip(j + 1);
    assert(s =~= front + back);
    assert forall|i: int| 0 <= i < back.len() implies (#[trigger] back[i]).0 != k by {
        assert(back[i] == s[j + 1 + i]);
    }
    lemma_lookup_str_missing(back, k);
    lemma_lookup_str_after(front, back, k);
    assert(front.last() == s[j]);
}

/// The characters of an egg's keys that tell them apart.
proof fn lemma_egg_key_chars()
    ensures
        "Egg Gallery male"@.len() == 16 && "Egg Gallery male"@[0] == 'E' && "Egg Gallery male"@[5] == 'a',
        "Egg Glyph File"@.len() == 14 && "Egg Glyph File"@[0] == 'E',
        "Egg Gallery female"@.len() == 18 && "Egg Gallery female"@[0] == 'E',
        "Egg Glyph File 2"@.len() == 16 && "Egg Glyph File 2"@[0] == 'E' && "Egg Glyph File 2"@[5] == 'l',
        "Egg Animation String"@.len() == 20 && "Egg Animation String"@[0] == 'E',
        "Genetics File"@.len() == 13 && "Genetics File"@[0] == 'G',
        "Mother Genetic File"@.len() == 19 && "Mother Genetic File"@[0] == 'M',
        "Father Genetic File"@.len() == 19 && "Father Genetic File"@[0] == 'F',
{
    reveal_strlit("Egg Gallery male");
    reveal_strlit("Egg Glyph File");
    reveal_strlit("Egg Gallery female");
    reveal_strlit("Egg Glyph File 2");
    reveal_strlit("Egg Animation String");
    reveal_strlit("Genetics File");
    reveal_strlit("Mother Genetic File");
    reveal_strlit("Father Genetic File");
}

/// The egg that reading back a written `e` gives: the same name, sprite files and
/// animation string; for each genetics file, the title of the file written, without its
/// trailing `*`s, with `.gen` after it; and the full names of the dependencies it names,
/// in the order of `deps`.
pub open spec fn egg_read_back(e: EggView, deps: Seq<FileView>) -> EggView {
    EggView {
        name: e.name,
        genetics_file: spec_genetics_file_name(Some(or_empty(path_file_stem(e.genetics_file)))),
        genetics_file_mother: spec_genetics_file_name(Some(or_empty(path_file_stem(e.genetics_file_mother)))),
        genetics_file_father: spec_genetics_file_name(Some(or_empty(path_file_stem(e.genetics_file_father)))),
        sprite_file_male: e.sprite_file_male,
        sprite_file_female: e.sprite_file_female,
        animation_string: e.animation_string,
        dependencies: file_full_names(listed_files(e.dependencies, deps)),
    }
}

proof fn lemma_egg_fields(e: EggView, deps: Seq<FileView>)
    ensures
        ({
            let r = spec_egg(egg_tag(e, deps), e.name);
            let w = egg_read_back(e, deps);
            &&& r.name == w.name
            &&& r.genetics_file == w.genetics_file
            &&& r.genetics_file_mother == w.genetics_file_mother
            &&& r.genetics_file_father == w.genetics_file_father
            &&& r.sprite_file_male == w.sprite_file_male
            &&& r.sprite_file_female == w.sprite_file_female
            &&& r.animation_string == w.animation_string
        }),
{
    let t = egg_tag(e, deps);
    let listed = listed_files(e.dependencies, deps);
    let fixed = t.strs.take(8);
    let dn = dependency_name_entries(listed);
    lemma_egg_key_chars();
    lemma_key_chars();
    lemma_dependency_name_keys(listed);
    assert(t.strs =~= fixed + dn);
    assert forall|j: int| 0 <= j < 8 implies lookup_str(t.strs, #[trigger] fixed[j].0) == lookup_str(fixed, fixed[j].0) by {
        assert forall|i: int| 0 <= i < dn.len() implies (#[trigger] dn[i]).0 != fixed[j].0 by {
            lemma_differ_at(dn[i].0, fixed[j].0, 0);
        }
        lemma_lookup_str_missing(dn, fixed[j].0);
        lemma_lookup_str_after(fixed, dn, fixed[j].0);
    }
    assert forall|j: int, m: int| 0 <= j < m < 8 implies (#[trigger] fixed[m]).0 != (#[trigger] fixed[j]).0 by {
        if fixed[m].0.len() == fixed[j].0.len() {
            if fixed[m].0[0] == fixed[j].0[0] {
                assert(j == 0 && m == 3);
                lemma_differ_at(fixed[m].0, fixed[j].0, 5);
            } else {
                lemma_differ_at(fixed[m].0, fixed[j].0, 0);
            }
        }
    }
    lemma_lookup_at(fixed, 1);
    lemma_lookup_at(fixed, 3);
    lemma_lookup_at(fixed, 4);
    lemma_lookup_at(fixed, 5);
    lemma_lookup_at(fixed, 6);
    lemma_lookup_at(fixed, 7);
}



proof fn lemma_decimal_len(n: nat)
    ensures
        decimal(n).len() >= 1,
        n >= 10 ==> decimal(n).len() >= 2,
    decreases n,
{
    if n >= 10 {
        lemma_decimal_len(n / 10);
    }
}

/// Different numbers have different decimal digits.
proof fn lemma_decimal_injective(m: nat, n: nat)
    requires
        decimal(m) == decimal(n),
    ensures
        m == n,
    decreases m,
{
    lemma_decimal_len(m);
    lemma_decimal_len(n);
    if m < 10 && n < 10 {
        let cm = (('0' as u32) + m) as char;
        let cn = (('0' as u32) + n) as char;
        assert(decimal(m)[0] == cm && decimal(n)[0] == cn);
        assert(cm as u32 == ('0' as u32) + m);
        assert(cn as u32 == ('0' as u32) + n);
    } else if m >= 10 && n >= 10 {
        let dm = decimal(m);
        let dn = decimal(n);
        assert(dm.drop_last() =~= decimal(m / 10));
        assert(dn.drop_last() =~= decimal(n / 10));
        lemma_decimal_injective(m / 10, n / 10);
        let cm = (('0' as u32) + (m % 10)) as char;
        let cn = (('0' as u32) + (n % 10)) as char;
        assert(dm.last() == cm && dn.last() == cn);
        assert(cm as u32 == ('0' as u32) + (m % 10));
        assert(cn as u32 == ('0' as u32) + (n % 10));
    }
}

/// Looking up `prefix` followed by the digits of `k` among entries whose keys are
/// `prefix` followed by their place, counting from 1, finds the `k`th entry.
proof fn lemma_lookup_numbered(es: Seq<(Seq<char>, Seq<char>)>, prefix: Seq<char>, k: nat)
    requires
        forall|i: int| 0 <= i < es.len() ==> (#[trigger] es[i]).0 == prefix + decimal((i + 1) as nat),
    ensures
        lookup_str(es, prefix + decimal(k)) == if 1 <= k <= es.len() {
            Some(es[k - 1].1)
        } else {
            None
        },
    decreases es.len(),
{
    if es.len() > 0 {
        let n = es.len();
        assert(es.last() == es[n - 1]);
        if es.last().0 == prefix + decimal(k) {
            let a = prefix + decimal(n as nat);
            let b = prefix + decimal(k);
            assert(a.skip(prefix.len() as int) =~= decimal(n as nat));
            assert(b.skip(prefix.len() as int) =~= decimal(k));
            lemma_decimal_injective(n as nat, k);
        } else {
            assert forall|i: int| 0 <= i < es.drop_last().len() implies (#[trigger] es.drop_last()[i]).0 == prefix + decimal((i + 1) as nat) by {
                assert(es.drop_last()[i] == es[i]);
            }
            lemma_lookup_numbered(es.drop_last(), prefix, k);
            if k == n {
                assert(es.last().0 == prefix + decimal(k));
            }
        }
    }
}


/// The full names, `name.extension`, of files.
pub open spec fn file_full_names(files: Seq<FileView>) -> Seq<Seq<char>> {
    Seq::new(files.len(), |i: int| full_name(files[i].name, files[i].extension))
}

proof fn lemma_dependencies_upto(t: TagView, names: Seq<Seq<char>>, n: nat)
    requires
        n <= names.len(),
        forall|k: nat| 1 <= k <= names.len() ==> lookup_str(t.strs, #[trigger] dependency_key(k)) == Some(names[k - 1]),
    ensures
        dependencies_upto(t, n) == names.take(n as int),
    decreases n,
{
    if n > 0 {
        lemma_dependencies_upto(t, names, (n - 1) as nat);
        assert(lookup_str(t.strs, dependency_key(n)) == Some(names[n - 1]));
        assert(names.take(n as int) =~= names.take(n - 1).push(names[n - 1]));
    }
}

/// Looking up `Dependency k` among the names written for dependencies.
proof fn lemma_lookup_dependency_name(files: Seq<FileView>, k: nat)
    ensures
        lookup_str(dependency_name_entries(files), dependency_key(k)) == if 1 <= k <= files.len() {
            Some(full_name(files[k - 1].name, files[k - 1].extension))
        } else {
            None
        },
{
    let dn = dependency_name_entries(files);
    assert forall|i: int| 0 <= i < dn.len() implies (#[trigger] dn[i]).0 == "Dependency "@ + decimal((i + 1) as nat) by {}
    lemma_lookup_numbered(dn, "Dependency "@, k);
}

/// Looking up `Dependency Count` in integer entries that end with it, then the
/// categories.
proof fn lemma_lookup_dependency_count(x: Seq<(Seq<char>, u32)>, files: Seq<FileView>)
    requires
        x.len() > 0,
        x.last().0 == "Dependency Count"@,
    ensures
        lookup_int(x + dependency_category_entries(files), "Dependency Count"@) == Some(x.last().1),
{
    let cats = dependency_category_entries(files);
    lemma_key_chars();
    reveal_strlit("Dependency Count");
    reveal_strlit("Dependency Category ");
    assert forall|i: int| 0 <= i < cats.len() implies (#[trigger] cats[i]).0 != "Dependency Count"@ by {
        let key = dependency_category_key((i + 1) as nat);
        assert(cats[i].0 == key);
        assert(key[12] == "Dependency Category "@[12]);
        lemma_differ_at(key, "Dependency Count"@, 12);
    }
    lemma_lookup_int_missing(cats, "Dependency Count"@);
    lemma_lookup_int_after(x, cats, "Dependency Count"@);
}

/// The dependencies read back of a written agent: the full names of the dependencies it
/// names that are not scripts, in the order of `deps`.
proof fn lemma_agent_dependencies_back(a: AgentView, deps: Seq<FileView>)
    requires
        tag_is_storable(agent_tag(a, deps)),
    ensures
        spec_get_dependencies(agent_tag(a, deps)) == file_full_names(selected_files(a.dependencies, deps, false)),
{
    let t = agent_tag(a, deps);
    let others = selected_files(a.dependencies, deps, false);
    let ints = agent_int_entries(a, deps);
    let cats = dependency_category_entries(others);
    let x = ints.take(3);
    lemma_key_chars();
    assert(ints.drop_last() =~= x + cats);
    lemma_lookup_dependency_count(x, others);
    lemma_differ_at("Script Count"@, "Dependency Count"@, 0);
    assert(ints.len() == 4 + others.len());
    assert(int_or_zero(t, "Dependency Count"@) == others.len());
    let names = file_full_names(others);
    let scripts = selected_files(a.dependencies, deps, true);
    let front = animation_entries(a) + game_entries(a);
    let dn = dependency_name_entries(others);
    let body = (front + dn).push(("Remove script"@, a.remove_script));
    let se = script_entries(scripts);
    lemma_str_entries_shape(a, deps);
    lemma_script_entry_keys(scripts);
    lemma_description_keys(a.descriptions);
    assert forall|k: nat| 1 <= k <= names.len() implies lookup_str(t.strs, #[trigger] dependency_key(k)) == Some(names[k - 1]) by {
        let dk = dependency_key(k);
        assert(dk[0] == 'D');
        assert forall|i: int| 0 <= i < se.len() implies (#[trigger] se[i]).0 != dk by {
            lemma_differ_at(se[i].0, dk, 0);
        }
        lemma_lookup_str_missing(se, dk);
        lemma_lookup_str_after(body, se, dk);
        lemma_differ_at("Remove script"@, dk, 0);
        assert(body.drop_last() =~= front + dn);
        lemma_lookup_dependency_name(others, k);
        lemma_lookup_str_after(front, dn, dk);
    }
    lemma_dependencies_upto(t, names, names.len());
    assert(names.take(names.len() as int) =~= names);
}


/// The dependencies read back of a written egg: the full names of the dependencies it
/// names, in the order of `deps`.
proof fn lemma_egg_dependencies_back(e: EggView, deps: Seq<FileView>)
    requires
        tag_is_storable(egg_tag(e, deps)),
    ensures
        spec_get_dependencies(egg_tag(e, deps)) == file_full_names(listed_files(e.dependencies, deps)),
{
    let t = egg_tag(e, deps);
    let listed = listed_files(e.dependencies, deps);
    let x = t.ints.take(2);
    assert(t.ints =~= x + dependency_category_entries(listed));
    lemma_lookup_dependency_count(x, listed);
    assert(int_or_zero(t, "Dependency Count"@) == listed.len());
    let names = file_full_names(listed);
    let fixed = t.strs.take(8);
    let dn = dependency_name_entries(listed);
    assert(t.strs =~= fixed + dn);
    lemma_egg_key_chars();
    lemma_key_chars();
    assert forall|k: nat| 1 <= k <= names.len() implies lookup_str(t.strs, #[trigger] dependency_key(k)) == Some(names[k - 1]) by {
        lemma_lookup_dependency_name(listed, k);
        lemma_lookup_str_after(fixed, dn, dependency_key(k));
    }
    lemma_dependencies_upto(t, names, names.len());
    assert(names.take(names.len() as int) =~= names);
}

/// The script files read back of a written agent block named `name`: the `i`th script
/// is named after the block (`name`, then `name 2`, ...), as a COS file holding the
/// script's text.
pub open spec fn script_files_back(name: Seq<char>, scripts: Seq<FileView>) -> Seq<BlockView> {
    Seq::new(scripts.len(), |i: int| BlockView::File(FileView {
        name: script_file_name(name, (i + 1) as nat),
        extension: "cos"@,
        data: scripts[i].data,
        is_checked: false,
    }))
}

/// The script files read back of a written agent.
proof fn lemma_agent_scripts_back(a: AgentView, deps: Seq<FileView>)
    requires
        tag_is_storable(agent_tag(a, deps)),
        scripts_are_text(selected_files(a.dependencies, deps, true)),
    ensures
        spec_get_scripts(agent_tag(a, deps), a.name) == script_files_back(a.name, selected_files(a.dependencies, deps, true)),
{
    let t = agent_tag(a, deps);
    let scripts = selected_files(a.dependencies, deps, true);
    let ints = agent_int_entries(a, deps);
    assert(ints.last() == ("Script Count"@, scripts.len() as u32));
    let others = selected_files(a.dependencies, deps, false);
    let body = (animation_entries(a) + game_entries(a) + dependency_name_entries(others)).push(("Remove script"@, a.remove_script));
    let se = script_entries(scripts);
    lemma_str_entries_shape(a, deps);
    assert(t.strs.len() >= scripts.len());
    assert(int_or_zero(t, "Script Count"@) == scripts.len());
    assert forall|i: int| 0 <= i < se.len() implies (#[trigger] se[i]).0 == "Script "@ + decimal((i + 1) as nat) by {}
    let files = script_files_back(a.name, scripts);
    assert forall|k: nat| 1 <= k <= scripts.len() implies lookup_str(t.strs, #[trigger] script_key(k)) == Some(decode_utf8(scripts[k - 1].data)) by {
        lemma_lookup_numbered(se, "Script "@, k);
        lemma_lookup_str_after(body, se, script_key(k));
    }
    lemma_scripts_upto(t, a.name, scripts, scripts.len());
    assert(files.take(scripts.len() as int) =~= files);
}

proof fn lemma_scripts_upto(t: TagView, name: Seq<char>, scripts: Seq<FileView>, n: nat)
    requires
        n <= scripts.len(),
        scripts_are_text(scripts),
        forall|k: nat| 1 <= k <= scripts.len() ==> lookup_str(t.strs, #[trigger] script_key(k)) == Some(decode_utf8(scripts[k - 1].data)),
    ensures
        scripts_upto(t, name, n) == script_files_back(name, scripts).take(n as int),
    decreases n,
{
    if n > 0 {
        lemma_scripts_upto(t, name, scripts, (n - 1) as nat);
        assert(lookup_str(t.strs, script_key(n)) == Some(decode_utf8(scripts[n - 1].data)));
        assert(valid_utf8(scripts[n - 1].data));
        decode_utf8_encode_utf8(scripts[n - 1].data);
        let files = script_files_back(name, scripts);
        assert(files.take(n as int) =~= files.take(n - 1).push(files[n - 1]));
    }
}


/// The blocks that reading back a written agent block gives: its scripts as COS files
/// named after the block (see `script_files_back`), then the agent with the same name,
/// game, animation file and string, and remove script; for Creatures 3 the same
/// bioenergy, and no first sprite image, web label, web address or description; for
/// Docking Station no bioenergy, the same first sprite image, web label and web address,
/// and the last description written in each language, in the order English, German,
/// Spanish, French, Italian, Dutch; and as dependencies the full names of those it names
/// that are not scripts, in the order of `deps`, then the scripts' file names.
pub open spec fn agent_read_back(a: AgentView, deps: Seq<FileView>) -> Seq<BlockView> {
    let scripts = selected_files(a.dependencies, deps, true);
    let others = selected_files(a.dependencies, deps, false);
    let files = script_files_back(a.name, scripts);
    let c3 = a.game_support == GameSupport::Creatures3;
    files.push(
        BlockView::Agent(
            AgentView {
                name: a.name,
                game_support: a.game_support,
                descriptions: if c3 { Seq::empty() } else { latest_descriptions(a.descriptions) },
                bioenergy: if c3 { a.bioenergy } else { 0 },
                web_label: if c3 { Seq::empty() } else { a.web_label },
                web_url: if c3 { Seq::empty() } else { a.web_url },
                animation_file: a.animation_file,
                animation_string: a.animation_string,
                sprite_first_image: if c3 { 0 } else { a.sprite_first_image },
                remove_script: a.remove_script,
                dependencies: file_full_names(others) + script_dependency_names(files),
            },
        ),
    )
}

/// Writing an agent block and reading it back gives the blocks `agent_read_back` says,
/// and leaves what follows the block. This holds where its scripts are UTF-8 text (else
/// nothing is written), the agent's name and every name and text in its tag are ASCII
/// without NUL, the name fits the header, and the tag's size fits in 32 bits.
pub proof fn lemma_agent_read_back(a: AgentView, deps: Seq<FileView>, rest: Seq<u8>)
    requires
        agent_block_storable(a, deps),
        scripts_are_text(selected_files(a.dependencies, deps, true)),
    ensures
        spec_read_block(agent_block_bytes(a, deps) + rest) == Ok::<(Seq<BlockView>, Seq<u8>), Error>(
            (agent_read_back(a, deps), rest),
        ),
{
    lemma_read_written_agent_block(a, deps, rest);
    lemma_remove_script_back(a, deps);
    lemma_animation_back(a, deps);
    lemma_web_back(a, deps);
    lemma_ints_back(a, deps);
    lemma_descriptions_back(a, deps);
    lemma_agent_dependencies_back(a, deps);
    lemma_agent_scripts_back(a, deps);
    let t = agent_tag(a, deps);
    let got = spec_agent_blocks(t, a.name, a.game_support);
    let want = agent_read_back(a, deps);
    assert(got.last() == want.last());
    assert(got =~= want);
}

/// Writing an egg block and reading it back gives the egg `egg_read_back` says, and
/// leaves what follows the block. This holds where the egg's name and every name and
/// text in its tag are ASCII without NUL, the name fits the header, and the tag's size
/// fits in 32 bits.
pub proof fn lemma_egg_read_back(e: EggView, deps: Seq<FileView>, rest: Seq<u8>)
    requires
        egg_block_storable(e, deps),
    ensures
        spec_read_block(egg_block_bytes(e, deps) + rest) == Ok::<(Seq<BlockView>, Seq<u8>), Error>(
            (seq![BlockView::Egg(egg_read_back(e, deps))], rest),
        ),
{
    lemma_read_written_egg_block(e, deps, rest);
    lemma_egg_fields(e, deps);
    lemma_egg_dependencies_back(e, deps);
    assert(spec_egg(egg_tag(e, deps), e.name) == egg_read_back(e, deps));
}


/// The characters of a garden box item's keys that tell them apart.
proof fn lemma_gb_key_chars()
    ensures
        "Agent Author"@.len() == 12 && "Agent Author"@[0] == 'A',
        "GB_Category"@.len() == 11 && "GB_Category"@[0] == 'G',
{
    reveal_strlit("Agent Author");
    reveal_strlit("GB_Category");
}

/// The animation entries written for a garden box item: its gallery and file, where the
/// file's title is not empty.
pub open spec fn gb_animation_entries(g: GardenBoxView) -> Seq<(Seq<char>, Seq<char>)> {
    let stem = or_empty(path_file_stem(g.animation_file));
    if stem.len() > 0 {
        seq![("Agent Animation Gallery"@, stem), ("Agent Animation File"@, g.animation_file)]
    } else {
        Seq::empty()
    }
}

proof fn lemma_gb_strs_shape(g: GardenBoxView, deps: Seq<FileView>)
    ensures
        gb_str_entries(g, deps) == (seq![("Agent Description"@, g.description), ("Agent Author"@, g.author)]
            + gb_animation_entries(g) + dependency_name_entries(selected_files(g.dependencies, deps, false))).push(
            ("Remove script"@, g.remove_script),
        ) + script_entries(selected_files(g.dependencies, deps, true)),
{
}

/// Looking up a key that starts with neither `D`, `R` nor `S` in a garden box item's
/// string entries looks only at the description, author and animation entries.
proof fn lemma_gb_lookup_front(g: GardenBoxView, deps: Seq<FileView>, k: Seq<char>)
    requires
        k.len() > 0,
        k[0] != 'D' && k[0] != 'R' && k[0] != 'S',
    ensures
        lookup_str(gb_str_entries(g, deps), k) == lookup_str(
            seq![("Agent Description"@, g.description), ("Agent Author"@, g.author)] + gb_animation_entries(g),
            k,
        ),
{
    let scripts = selected_files(g.dependencies, deps, true);
    let others = selected_files(g.dependencies, deps, false);
    let front = seq![("Agent Description"@, g.description), ("Agent Author"@, g.author)] + gb_animation_entries(g);
    let dn = dependency_name_entries(others);
    let body = (front + dn).push(("Remove script"@, g.remove_script));
    let se = script_entries(scripts);
    lemma_gb_strs_shape(g, deps);
    lemma_key_chars();
    lemma_script_entry_keys(scripts);
    lemma_dependency_name_keys(others);
    assert forall|i: int| 0 <= i < se.len() implies (#[trigger] se[i]).0 != k by {
        lemma_differ_at(se[i].0, k, 0);
    }
    lemma_lookup_str_missing(se, k);
    lemma_lookup_str_after(body, se, k);
    lemma_differ_at("Remove script"@, k, 0);
    assert(body.drop_last() =~= front + dn);
    assert forall|i: int| 0 <= i < dn.len() implies (#[trigger] dn[i]).0 != k by {
        lemma_differ_at(dn[i].0, k, 0);
    }
    lemma_lookup_str_missing(dn, k);
    lemma_lookup_str_after(front, dn, k);
}

/// Reading back a garden box item's texts.
proof fn lemma_gb_strs_back(g: GardenBoxView, deps: Seq<FileView>)
    ensures
        lookup_str(gb_str_entries(g, deps), "Agent Description"@) == Some(g.description),
        lookup_str(gb_str_entries(g, deps), "Agent Author"@) == Some(g.author),
        lookup_str(gb_str_entries(g, deps), "Agent Animation File"@) == if or_empty(path_file_stem(g.animation_file)).len() > 0 {
            Some(g.animation_file)
        } else {
            None
        },
        lookup_str(gb_str_entries(g, deps), "Remove script"@) == Some(g.remove_script),
{
    let scripts = selected_files(g.dependencies, deps, true);
    let others = selected_files(g.dependencies, deps, false);
    let fixed = seq![("Agent Description"@, g.description), ("Agent Author"@, g.author)];
    let an = gb_animation_entries(g);
    lemma_key_chars();
    lemma_gb_key_chars();
    lemma_gb_lookup_front(g, deps, "Agent Description"@);
    lemma_gb_lookup_front(g, deps, "Agent Author"@);
    lemma_gb_lookup_front(g, deps, "Agent Animation File"@);
    assert forall|i: int| 0 <= i < an.len() implies (#[trigger] an[i]).0 != "Agent Description"@ && an[i].0 != "Agent Author"@ by {}
    lemma_lookup_str_missing(an, "Agent Description"@);
    lemma_lookup_str_missing(an, "Agent Author"@);
    lemma_lookup_str_after(fixed, an, "Agent Description"@);
    lemma_lookup_str_after(fixed, an, "Agent Author"@);
    assert(fixed.drop_last().last() == ("Agent Description"@, g.description));
    assert(lookup_str(fixed.drop_last(), "Agent Description"@) == Some(g.description));
    lemma_lookup_str_after(fixed, an, "Agent Animation File"@);
    if an.len() == 0 {
        assert(fixed.drop_last().drop_last() =~= Seq::<(Seq<char>, Seq<char>)>::empty());
        assert(lookup_str(fixed.drop_last().drop_last(), "Agent Animation File"@) is None);
        assert(lookup_str(fixed.drop_last(), "Agent Animation File"@) is None);
    }
    let body = (fixed + an + dependency_name_entries(others)).push(("Remove script"@, g.remove_script));
    let se = script_entries(scripts);
    lemma_gb_strs_shape(g, deps);
    lemma_script_entry_keys(scripts);
    assert forall|i: int| 0 <= i < se.len() implies (#[trigger] se[i]).0 != "Remove script"@ by {
        lemma_differ_at(se[i].0, "Remove script"@, 0);
    }
    lemma_lookup_str_missing(se, "Remove script"@);
    lemma_lookup_str_after(body, se, "Remove script"@);
}


/// Reading back a garden box item's category and first sprite image (written where its
/// animation file has a title).
proof fn lemma_gb_ints_back(g: GardenBoxView, deps: Seq<FileView>)
    ensures
        lookup_int(gb_int_entries(g, deps), "GB_Category"@) == Some(g.category),
        lookup_int(gb_int_entries(g, deps), "Agent Sprite First Image"@) == if or_empty(path_file_stem(g.animation_file)).len() > 0 {
            Some(g.sprite_first_image)
        } else {
            None
        },
{
    let others = selected_files(g.dependencies, deps, false);
    let ints = gb_int_entries(g, deps);
    let head = seq![("Agent Type"@, 0u32), ("GB_Category"@, g.category)];
    let ai = if or_empty(path_file_stem(g.animation_file)).len() > 0 {
        seq![("Agent Sprite First Image"@, g.sprite_first_image)]
    } else {
        Seq::empty()
    };
    let x = (head + ai).push(("Dependency Count"@, others.len() as u32));
    let cats = dependency_category_entries(others);
    lemma_key_chars();
    lemma_gb_key_chars();
    lemma_category_keys(others);
    assert(ints.drop_last() =~= x + cats);
    let k1 = "GB_Category"@;
    let k2 = "Agent Sprite First Image"@;
    lemma_differ_at("Script Count"@, k1, 0);
    lemma_differ_at("Script Count"@, k2, 0);
    assert forall|i: int| 0 <= i < cats.len() implies (#[trigger] cats[i]).0 != k1 && cats[i].0 != k2 by {
        lemma_differ_at(cats[i].0, k1, 0);
        lemma_differ_at(cats[i].0, k2, 0);
    }
    lemma_lookup_int_missing(cats, k1);
    lemma_lookup_int_missing(cats, k2);
    lemma_lookup_int_after(x, cats, k1);
    lemma_lookup_int_after(x, cats, k2);
    lemma_differ_at("Dependency Count"@, k1, 0);
    lemma_differ_at("Dependency Count"@, k2, 0);
    assert(x.drop_last() =~= head + ai);
    assert forall|i: int| 0 <= i < ai.len() implies (#[trigger] ai[i]).0 != k1 by {}
    lemma_lookup_int_missing(ai, k1);
    lemma_lookup_int_after(head, ai, k1);
    lemma_lookup_int_after(head, ai, k2);
    assert(head.drop_last() =~= seq![("Agent Type"@, 0u32)]);
    assert(head.drop_last().drop_last() =~= Seq::<(Seq<char>, u32)>::empty());
    assert(lookup_int(head.drop_last().drop_last(), k2) is None);
    assert(lookup_int(head.drop_last(), k2) is None);
    assert(lookup_int(head, k2) is None);
}

/// The dependencies and script files read back of a written garden box item.
proof fn lemma_gb_lists_back(g: GardenBoxView, deps: Seq<FileView>)
    requires
        tag_is_storable(gb_tag(g, deps)),
        scripts_are_text(selected_files(g.dependencies, deps, true)),
    ensures
        spec_get_dependencies(gb_tag(g, deps)) == file_full_names(selected_files(g.dependencies, deps, false)),
        spec_get_scripts(gb_tag(g, deps), g.name) == script_files_back(g.name, selected_files(g.dependencies, deps, true)),
{
    let t = gb_tag(g, deps);
    let scripts = selected_files(g.dependencies, deps, true);
    let others = selected_files(g.dependencies, deps, false);
    let ints = gb_int_entries(g, deps);
    let cats = dependency_category_entries(others);
    let x = ints.drop_last().take(ints.len() - 1 - cats.len());
    lemma_key_chars();
    assert(ints.drop_last() =~= x + cats);
    lemma_lookup_dependency_count(x, others);
    lemma_differ_at("Script Count"@, "Dependency Count"@, 0);
    assert(int_or_zero(t, "Dependency Count"@) == others.len());
    let front = seq![("Agent Description"@, g.description), ("Agent Author"@, g.author)] + gb_animation_entries(g);
    let dn = dependency_name_entries(others);
    let body = (front + dn).push(("Remove script"@, g.remove_script));
    let se = script_entries(scripts);
    lemma_gb_strs_shape(g, deps);
    lemma_script_entry_keys(scripts);
    let names = file_full_names(others);
    assert forall|k: nat| 1 <= k <= names.len() implies lookup_str(t.strs, #[trigger] dependency_key(k)) == Some(names[k - 1]) by {
        let dk = dependency_key(k);
        assert(dk[0] == 'D');
        assert forall|i: int| 0 <= i < se.len() implies (#[trigger] se[i]).0 != dk by {
            lemma_differ_at(se[i].0, dk, 0);
        }
        lemma_lookup_str_missing(se, dk);
        lemma_lookup_str_after(body, se, dk);
        lemma_differ_at("Remove script"@, dk, 0);
        assert(body.drop_last() =~= front + dn);
        lemma_lookup_dependency_name(others, k);
        lemma_lookup_str_after(front, dn, dk);
    }
    lemma_dependencies_upto(t, names, names.len());
    assert(names.take(names.len() as int) =~= names);
    assert(ints.last() == ("Script Count"@, scripts.len() as u32));
    assert(t.strs.len() >= scripts.len());
    assert(int_or_zero(t, "Script Count"@) == scripts.len());
    assert forall|i: int| 0 <= i < se.len() implies (#[trigger] se[i]).0 == "Script "@ + decimal((i + 1) as nat) by {}
    assert forall|k: nat| 1 <= k <= scripts.len() implies lookup_str(t.strs, #[trigger] script_key(k)) == Some(decode_utf8(scripts[k - 1].data)) by {
        lemma_lookup_numbered(se, "Script "@, k);
        lemma_lookup_str_after(body, se, script_key(k));
    }
    lemma_scripts_upto(t, g.name, scripts, scripts.len());
    let files = script_files_back(g.name, scripts);
    assert(files.take(scripts.len() as int) =~= files);
}

/// The blocks that reading back a written garden box block gives: its scripts as COS
/// files named after the block (see `script_files_back`), then the item with the same
/// name, description, author, category and remove script; the same animation file and
/// first sprite image where the file's title is not empty, else none; and as
/// dependencies the full names of those it names that are not scripts, in the order of
/// `deps`, then the scripts' file names.
pub open spec fn gb_read_back(g: GardenBoxView, deps: Seq<FileView>) -> Seq<BlockView> {
    let scripts = selected_files(g.dependencies, deps, true);
    let others = selected_files(g.dependencies, deps, false);
    let files = script_files_back(g.name, scripts);
    let animated = or_empty(path_file_stem(g.animation_file)).len() > 0;
    files.push(
        BlockView::GardenBox(
            GardenBoxView {
                name: g.name,
                description: g.description,
                author: g.author,
                category: g.category,
                animation_file: if animated { g.animation_file } else { Seq::empty() },
                sprite_first_image: if animated { g.sprite_first_image } else { 0 },
                remove_script: g.remove_script,
                dependencies: file_full_names(others) + script_dependency_names(files),
            },
        ),
    )
}

/// Writing a garden box block and reading it back gives the blocks `gb_read_back` says,
/// and leaves what follows the block. This holds where its scripts are UTF-8 text (else
/// nothing is written), the item's name and every name and text in its tag are ASCII
/// without NUL, the name fits the header, and the tag's size fits in 32 bits.
pub proof fn lemma_gb_read_back(g: GardenBoxView, deps: Seq<FileView>, rest: Seq<u8>)
    requires
        gb_block_storable(g, deps),
        scripts_are_text(selected_files(g.dependencies, deps, true)),
    ensures
        spec_read_block(gb_block_bytes(g, deps) + rest) == Ok::<(Seq<BlockView>, Seq<u8>), Error>(
            (gb_read_back(g, deps), rest),
        ),
{
    lemma_read_written_gb_block(g, deps, rest);
    lemma_gb_strs_back(g, deps);
    lemma_gb_ints_back(g, deps);
    lemma_gb_lists_back(g, deps);
    let got = spec_gb_blocks(gb_tag(g, deps), g.name);
    let want = gb_read_back(g, deps);
    assert(got.last() == want.last());
    assert(got =~= want);
}


/// Whether a block written against `deps` reads back as `block_read_back` says: a file
/// that reads back; an agent or garden box item whose scripts are text and whose block
/// reads back whole; an egg whose block reads back whole. A generic block does not: its
/// data is written as it is, but marked compressed.
pub open spec fn block_reads_back(b: BlockView, deps: Seq<FileView>) -> bool {
    match b {
        BlockView::File(f) => file_reads_back(f),
        BlockView::Agent(a) => agent_block_storable(a, deps) && scripts_are_text(selected_files(a.dependencies, deps, true)),
        BlockView::Egg(e) => egg_block_storable(e, deps),
        BlockView::GardenBox(g) => gb_block_storable(g, deps) && scripts_are_text(selected_files(g.dependencies, deps, true)),
        BlockView::Generic(_) => false,
    }
}

/// The blocks that reading back a written block gives.
pub open spec fn block_read_back(b: BlockView, deps: Seq<FileView>) -> Seq<BlockView> {
    match b {
        BlockView::File(f) => seq![file_read_back(f)],
        BlockView::Agent(a) => agent_read_back(a, deps),
        BlockView::Egg(e) => seq![BlockView::Egg(egg_read_back(e, deps))],
        BlockView::GardenBox(g) => gb_read_back(g, deps),
        BlockView::Generic(_) => Seq::empty(),
    }
}

/// The blocks that reading back written blocks gives, one block after another.
pub open spec fn blocks_read_back(bs: Seq<BlockView>, deps: Seq<FileView>) -> Seq<BlockView>
    decreases bs.len(),
{
    if bs.len() == 0 {
        Seq::empty()
    } else {
        blocks_read_back(bs.drop_last(), deps) + block_read_back(bs.last(), deps)
    }
}

proof fn lemma_read_block_then(b: BlockView, deps: Seq<FileView>, tail: Seq<u8>)
    requires
        block_reads_back(b, deps),
    ensures
        spec_read_blocks(block_bytes(b, deps) + tail) == prepend_blocks(block_read_back(b, deps), spec_read_blocks(tail)),
{
    match b {
        BlockView::File(f) => {
            lemma_read_file_then(f, tail);
        },
        BlockView::Agent(a) => {
            lemma_agent_read_back(a, deps, tail);
            assert((block_bytes(b, deps) + tail).len() > 0);
        },
        BlockView::Egg(e) => {
            lemma_egg_read_back(e, deps, tail);
            assert((block_bytes(b, deps) + tail).len() > 0);
        },
        BlockView::GardenBox(g) => {
            lemma_gb_read_back(g, deps, tail);
            assert((block_bytes(b, deps) + tail).len() > 0);
        },
        BlockView::Generic(_) => {},
    }
}

#[verifier::spinoff_prover]
proof fn lemma_read_blocks_then(bs: Seq<BlockView>, deps: Seq<FileView>, tail: Seq<u8>)
    requires
        forall|i: int| 0 <= i < bs.len() ==> block_reads_back(#[trigger] bs[i], deps),
    ensures
        spec_read_blocks(super::pray::blocks_bytes(bs, deps) + tail) == prepend_blocks(blocks_read_back(bs, deps), spec_read_blocks(tail)),
    decreases bs.len(),
{
    if bs.len() == 0 {
        assert(super::pray::blocks_bytes(bs, deps) + tail =~= tail);
        match spec_read_blocks(tail) {
            Ok(more) => assert(blocks_read_back(bs, deps) + more =~= more),
            Err(_) => {},
        }
    } else {
        let b = bs.last();
        let d = bs.drop_last();
        assert(block_reads_back(bs[bs.len() - 1], deps));
        assert forall|i: int| 0 <= i < d.len() implies block_reads_back(#[trigger] d[i], deps) by {
            assert(d[i] == bs[i]);
        }
        let s1 = super::pray::blocks_bytes(d, deps);
        let s2 = block_bytes(b, deps);
        lemma_read_blocks_then(d, deps, s2 + tail);
        lemma_read_block_then(b, deps, tail);
        lemma_read_in_turn(s1, s2, tail, blocks_read_back(d, deps), block_read_back(b, deps));
    }
}

/// Decoding what `encode` writes gives back each block as `block_read_back` says, in
/// order, then the dependencies that are not scripts, unchecked; where every block and
/// every dependency that is not a script reads back (`block_reads_back`,
/// `file_reads_back`).
#[verifier::spinoff_prover]
pub proof fn lemma_decode_encoded(bs: Seq<BlockView>, deps: Seq<FileView>)
    requires
        forall|i: int| 0 <= i < bs.len() ==> block_reads_back(#[trigger] bs[i], deps),
        forall|i: int| 0 <= i < deps.len() && deps[i].extension != "cos"@ ==> file_reads_back(#[trigger] deps[i]),
    ensures
        spec_decode(pray_bytes(bs, deps)) == Ok::<Seq<BlockView>, Error>(blocks_read_back(bs, deps) + dependencies_read_back(deps)),
{
    let tail = super::pray::dependency_blocks_bytes(deps);
    lemma_read_dependency_blocks(deps, Seq::empty());
    assert(tail + Seq::<u8>::empty() =~= tail);
    assert(dependencies_read_back(deps) + Seq::<BlockView>::empty() =~= dependencies_read_back(deps));
    lemma_read_blocks_then(bs, deps, tail);
    reveal_strlit("PRAY");
    assert(is_plain_ascii("PRAY"@));
    lemma_read_write_string("PRAY"@, 4, super::pray::blocks_bytes(bs, deps) + tail);
    assert(pray_bytes(bs, deps) =~= padded(encode_utf8("PRAY"@), 4) + (super::pray::blocks_bytes(bs, deps) + tail));
}


/// Reading back the dependencies that `write_dependencies` writes into an empty tag
/// gives the full names of the dependencies, in order, where there are fewer than 2^32
/// of them.
pub proof fn lemma_dependencies_read_back(deps: Seq<FileView>)
    requires
        deps.len() <= u32::MAX,
    ensures
        spec_get_dependencies(
            TagView {
                ints: seq![("Dependency Count"@, deps.len() as u32)] + dependency_category_entries(deps),
                strs: dependency_name_entries(deps),
            },
        ) == file_full_names(deps),
{
    let t = TagView {
        ints: seq![("Dependency Count"@, deps.len() as u32)] + dependency_category_entries(deps),
        strs: dependency_name_entries(deps),
    };
    lemma_lookup_dependency_count(seq![("Dependency Count"@, deps.len() as u32)], deps);
    assert(int_or_zero(t, "Dependency Count"@) == deps.len());
    let names = file_full_names(deps);
    assert forall|k: nat| 1 <= k <= names.len() implies lookup_str(t.strs, #[trigger] dependency_key(k)) == Some(names[k - 1]) by {
        lemma_lookup_dependency_name(deps, k);
    }
    lemma_dependencies_upto(t, names, names.len());
    assert(names.take(names.len() as int) =~= names);
}

} // verus!
