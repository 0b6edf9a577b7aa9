//! Model and reasoning-effort selection: the effort levels offered for a base model.

use vstd::prelude::*;
use crate::keyboard::{callback_button, keyboard_view, row_view, ActionKind, InlineKeyboard, KeyboardButton};
use crate::text::{append_str, chars_of, eq_str, slice, starts_with, starts_with_chars, string_of, to_uppercase, uppercase};

verus! {

/// The effort level named by the suffix a model carries after its base name.
pub open spec fn effort_of_suffix(suffix: Seq<char>) -> Option<Seq<char>> {
    if suffix == "-high"@ {
        Some("high"@)
    } else if suffix == "-medium"@ {
        Some("medium"@)
    } else if suffix == "-low"@ {
        Some("low"@)
    } else {
        None
    }
}

/// The effort levels of the models that extend `base`, in the order of `models`.
pub open spec fn efforts_for(base: Seq<char>, models: Seq<Seq<char>>) -> Seq<Seq<char>>
    decreases models.len(),
{
    if models.len() == 0 {
        Seq::empty()
    } else {
        let prior = efforts_for(base, models.drop_last());
        let m = models.last();
        if starts_with(m, base) {
            match effort_of_suffix(m.skip(base.len() as int)) {
                Some(e) => prior.push(e),
                None => prior,
            }
        } else {
            prior
        }
    }
}

/// With no models there is no level to offer.
pub proof fn lemma_no_models_no_levels(base: Seq<char>)
    ensures
        efforts_for(base, Seq::empty()) == Seq::<Seq<char>>::empty(),
{
}

/// A model named `base`, `-` and one of the levels `high`, `medium`, `low` adds that level
/// after the levels of the models before it.
pub proof fn lemma_effort_model_adds_its_level(base: Seq<char>, models: Seq<Seq<char>>, level: Seq<char>)
    requires
        level == "high"@ || level == "medium"@ || level == "low"@,
    ensures
        efforts_for(base, models.push(base + "-"@ + level)) == efforts_for(base, models).push(level),
{
    reveal_strlit("-");
    reveal_strlit("high");
    reveal_strlit("medium");
    reveal_strlit("low");
    reveal_strlit("-high");
    reveal_strlit("-medium");
    reveal_strlit("-low");
    let ms = models.push(base + "-"@ + level);
    let m = base + "-"@ + level;
    assert(ms.drop_last() == models);
    assert(m.take(base.len() as int) == base);
    assert(m.skip(base.len() as int) =~= "-"@ + level);
    assert(starts_with(m, base));
    assert("-"@ + "high"@ =~= "-high"@);
    assert("-"@ + "medium"@ =~= "-medium"@);
    assert("-"@ + "low"@ =~= "-low"@);
    assert("-high"@ != "-medium"@);
    assert("-high"@ != "-low"@);
    assert("-medium"@ != "-low"@) by {
        assert("-medium"@.len() != "-low"@.len());
    }
}

/// Any other model adds no level.
pub proof fn lemma_other_model_adds_nothing(base: Seq<char>, models: Seq<Seq<char>>, m: Seq<char>)
    requires
        m != base + "-"@ + "high"@,
        m != base + "-"@ + "medium"@,
        m != base + "-"@ + "low"@,
    ensures
        efforts_for(base, models.push(m)) == efforts_for(base, models),
{
    reveal_strlit("-");
    reveal_strlit("high");
    reveal_strlit("medium");
    reveal_strlit("low");
    reveal_strlit("-high");
    reveal_strlit("-medium");
    reveal_strlit("-low");
    let ms = models.push(m);
    assert(ms.drop_last() == models);
    if starts_with(m, base) {
        let suffix = m.skip(base.len() as int);
        assert(m =~= base + suffix);
        assert("-"@ + "high"@ =~= "-high"@);
        assert("-"@ + "medium"@ =~= "-medium"@);
        assert("-"@ + "low"@ =~= "-low"@);
        assert(effort_of_suffix(suffix) is None) by {
            if suffix == "-high"@ {
                assert(m == base + ("-"@ + "high"@));
                assert(base + ("-"@ + "high"@) =~= base + "-"@ + "high"@);
            } else if suffix == "-medium"@ {
                assert(m == base + ("-"@ + "medium"@));
                assert(base + ("-"@ + "medium"@) =~= base + "-"@ + "medium"@);
            } else if suffix == "-low"@ {
                assert(m == base + ("-"@ + "low"@));
                assert(base + ("-"@ + "low"@) =~= base + "-"@ + "low"@);
            }
        }
    }
}

/// The effort levels (`high`, `medium`, `low`) available for the base model `base`, one
/// for each model named `base` followed by `-high`, `-medium` or `-low`.
pub fn get_efforts_for_base(base: &str, models: &Vec<String>) -> (r: Vec<String>)
    ensures
        r@.map_values(|s: String| s@) == efforts_for(
            base@,
            models@.map_values(|s: String| s@),
        ),
{
    let b = chars_of(base);
    let ghost ms = models@.map_values(|s: String| s@);
    let mut efforts: Vec<String> = Vec::new();
    let mut i: usize = 0;
    while i < models.len()
        invariant
            i <= models@.len(),
            b@ == base@,
            ms == models@.map_values(|s: String| s@),
            efforts@.map_values(|s: String| s@) == efforts_for(base@, ms.take(i as int)),
        decreases models.len() - i,
    {
        assert(ms.take(i + 1).drop_last() == ms.take(i as int));
        assert(ms.take(i + 1).last() == models@[i as int]@);
        let m = chars_of(models[i].as_str());
        let ghost before = efforts@;
        if starts_with_chars(&m, &b) {
            let suffix = slice(&m, b.len(), m.len());
            assert(suffix@ == m@.skip(b@.len() as int));
            if eq_str(&suffix, "-high") {
                efforts.push("high".to_owned());
            } else if eq_str(&suffix, "-medium") {
                efforts.push("medium".to_owned());
            } else if eq_str(&suffix, "-low") {
                efforts.push("low".to_owned());
            }
        }
        assert(efforts@.map_values(|s: String| s@) =~= efforts_for(base@, ms.take(i + 1)));
        i = i + 1;
    }
    assert(ms.take(models@.len() as int) == ms);
    efforts
}

/// The prompt above the effort buttons of a base model.
pub open spec fn effort_prompt_of(base: Seq<char>) -> Seq<char> {
    "Select reasoning effort level for `"@ + base + "`:"@
}

/// One row of effort buttons: each labelled with the level in capitals and sending
/// `model_effort:{base}:{level}`.
pub open spec fn effort_row_of(base: Seq<char>, efforts: Seq<Seq<char>>) -> Seq<(Seq<char>, ActionKind, Seq<char>)> {
    efforts.map_values(|e: Seq<char>| (uppercase(e), ActionKind::Callback, "model_effort:"@ + base + ":"@ + e))
}

/// The text and keyboard that ask for the effort level of a base model.
pub fn effort_keyboard(base: &str, efforts: &Vec<String>) -> (r: (String, InlineKeyboard))
    ensures
        r.0@ == effort_prompt_of(base@),
        keyboard_view(r.1) == seq![effort_row_of(base@, efforts@.map_values(|s: String| s@))],
{
    let ghost es = efforts@.map_values(|s: String| s@);
    let mut row: Vec<KeyboardButton> = Vec::new();
    let mut i: usize = 0;
    while i < efforts.len()
        invariant
            i <= efforts@.len(),
            es == efforts@.map_values(|s: String| s@),
            row_view(row) == effort_row_of(base@, es.take(i as int)),
        decreases efforts.len() - i,
    {
        let e = &efforts[i];
        let mut data = chars_of("model_effort:");
        append_str(&mut data, base);
        append_str(&mut data, ":");
        append_str(&mut data, e.as_str());
        let label = to_uppercase(e.as_str());
        let ghost before = row_view(row);
        row.push(callback_button(label.as_str(), string_of(&data).as_str()));
        assert(es.take(i + 1) =~= es.take(i as int).push(es[i as int]));
        assert(row_view(row) =~= before.push((uppercase(es[i as int]), ActionKind::Callback, "model_effort:"@ + base@ + ":"@ + es[i as int])));
        assert(row_view(row) =~= effort_row_of(base@, es.take(i + 1)));
        i = i + 1;
    }
    assert(es.take(efforts@.len() as int) =~= es);
    let mut rows: Vec<Vec<KeyboardButton>> = Vec::new();
    rows.push(row);
    let k = InlineKeyboard { inline_keyboard: rows };
    assert(keyboard_view(k) =~= seq![effort_row_of(base@, es)]);
    let mut text = chars_of("Select reasoning effort level for `");
    append_str(&mut text, base);
    append_str(&mut text, "`:");
    (string_of(&text), k)
}

/// What choosing a base model leads to.
#[derive(Clone, Debug, PartialEq, Eq)]
pub enum BaseChoice {
    /// The model has no effort levels: switch to it directly.
    SwitchModel,
    /// Ask for the effort level with this text and keyboard.
    ChooseEffort(String, InlineKeyboard),
}

/// Decides what choosing the base model `base` among `models` leads to.
pub fn choose_base_model(base: &str, models: &Vec<String>) -> (r: BaseChoice)
    ensures
        efforts_for(base@, models@.map_values(|s: String| s@)).len() == 0 ==> r is SwitchModel,
        efforts_for(base@, models@.map_values(|s: String| s@)).len() > 0 ==> (r matches BaseChoice::ChooseEffort(
            t,
            k,
        ) && t@ == effort_prompt_of(base@) && keyboard_view(k) == seq![
            effort_row_of(base@, efforts_for(base@, models@.map_values(|s: String| s@))),
        ]),
{
    let efforts = get_efforts_for_base(base, models);
    if efforts.len() == 0 {
        BaseChoice::SwitchModel
    } else {
        let (t, k) = effort_keyboard(base, &efforts);
        BaseChoice::ChooseEffort(t, k)
    }
}

/// The model shown after an effort level was chosen: `{base} (effort: {effort})`.
pub fn model_with_effort(base: &str, effort: &str) -> (r: String)
    ensures
        r@ == base@ + " (effort: "@ + effort@ + ")"@,
{
    let mut t = chars_of(base);
    append_str(&mut t, " (effort: ");
    append_str(&mut t, effort);
    append_str(&mut t, ")");
    string_of(&t)
}

/// The confirmation shown after the session's effort level was switched.
pub fn effort_switched_text(effort: &str) -> (r: String)
    ensures
        r@ == "🤖 [tuner] Session reasoning effort switched to `"@ + effort@ + "`."@,
{
    let mut t = chars_of("🤖 [tuner] Session reasoning effort switched to `");
    append_str(&mut t, effort);
    append_str(&mut t, "`.");
    string_of(&t)
}

} // verus!
