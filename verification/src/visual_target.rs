//! Visual automation: rules, chains, automation steps and templates, the
//! requests sent to the visual-target script, and how its reports become
//! results.

use vstd::prelude::*;

use crate::text::{
    chars_of, push_all, push_decimal, push_signed_decimal, push_str, signed_decimal,
    string_from_chars, strings_view, trim,
};
use crate::cursor_control::InputReport;
use crate::web::opt_string_view;

verus! {

pub struct VisualRule {
    pub id: String,
    pub name: String,
    pub window_title: String,
    pub match_type: String,
    pub match_value: String,
    pub color_tolerance: u32,
    pub click: bool,
}

pub struct ChainStep {
    pub id: String,
    pub rule_id: String,
    pub delay_ms: u64,
}

pub struct RuleChain {
    pub id: String,
    pub name: String,
    pub steps: Vec<ChainStep>,
}

pub struct AutomationStep {
    pub id: String,
    pub name: String,
    pub action: String,
    pub window_title: String,
    pub match_type: String,
    pub match_value: String,
    pub color_tolerance: u32,
    pub click: bool,
    pub enabled: bool,
    pub delay_ms: u64,
    pub delay_unit: String,
    pub time_after_step: bool,
    pub last_measured_ms: u64,
    pub offset_x: i32,
    pub offset_y: i32,
    pub input_mode: String,
    pub input_text: String,
}

pub struct AutomationTemplate {
    pub id: String,
    pub name: String,
    pub steps: Vec<AutomationStep>,
    pub updated_at: u64,
}

/// The stored rules file (`visual-rules.json`).
pub struct VisualRulesFile {
    pub rules: Vec<VisualRule>,
    pub chains: Vec<RuleChain>,
    pub steps: Vec<AutomationStep>,
    pub templates: Vec<AutomationTemplate>,
    pub active_template_id: String,
}

// ---------------------------------------------------------------------------
// Views
// ---------------------------------------------------------------------------
pub struct RuleView {
    pub id: Seq<char>,
    pub name: Seq<char>,
    pub window_title: Seq<char>,
    pub match_type: Seq<char>,
    pub match_value: Seq<char>,
    pub color_tolerance: u32,
    pub click: bool,
}

pub struct ChainStepView {
    pub id: Seq<char>,
    pub rule_id: Seq<char>,
    pub delay_ms: u64,
}

pub struct ChainView {
    pub id: Seq<char>,
    pub name: Seq<char>,
    pub steps: Seq<ChainStepView>,
}

pub struct StepView {
    pub id: Seq<char>,
    pub name: Seq<char>,
    pub action: Seq<char>,
    pub window_title: Seq<char>,
    pub match_type: Seq<char>,
    pub match_value: Seq<char>,
    pub color_tolerance: u32,
    pub click: bool,
    pub enabled: bool,
    pub delay_ms: u64,
    pub delay_unit: Seq<char>,
    pub time_after_step: bool,
    pub last_measured_ms: u64,
    pub offset_x: i32,
    pub offset_y: i32,
    pub input_mode: Seq<char>,
    pub input_text: Seq<char>,
}

pub struct TemplateView {
    pub id: Seq<char>,
    pub name: Seq<char>,
    pub steps: Seq<StepView>,
    pub updated_at: u64,
}

pub struct RulesFileView {
    pub rules: Seq<RuleView>,
    pub chains: Seq<ChainView>,
    pub steps: Seq<StepView>,
    pub templates: Seq<TemplateView>,
    pub active_template_id: Seq<char>,
}

impl View for VisualRule {
    type V = RuleView;

    open spec fn view(&self) -> RuleView {
        RuleView {
            id: self.id@,
            name: self.name@,
            window_title: self.window_title@,
            match_type: self.match_type@,
            match_value: self.match_value@,
            color_tolerance: self.color_tolerance,
            click: self.click,
        }
    }
}

impl View for ChainStep {
    type V = ChainStepView;

    open spec fn view(&self) -> ChainStepView {
        ChainStepView { id: self.id@, rule_id: self.rule_id@, delay_ms: self.delay_ms }
    }
}

pub open spec fn chain_steps_view(s: Seq<ChainStep>) -> Seq<ChainStepView> {
    s.map_values(|c: ChainStep| c@)
}

impl View for RuleChain {
    type V = ChainView;

    open spec fn view(&self) -> ChainView {
        ChainView { id: self.id@, name: self.name@, steps: chain_steps_view(self.steps@) }
    }
}

impl View for AutomationStep {
    type V = StepView;

    open spec fn view(&self) -> StepView {
        StepView {
            id: self.id@,
            name: self.name@,
            action: self.action@,
            window_title: self.window_title@,
            match_type: self.match_type@,
            match_value: self.match_value@,
            color_tolerance: self.color_tolerance,
            click: self.click,
            enabled: self.enabled,
            delay_ms: self.delay_ms,
            delay_unit: self.delay_unit@,
            time_after_step: self.time_after_step,
            last_measured_ms: self.last_measured_ms,
            offset_x: self.offset_x,
            offset_y: self.offset_y,
            input_mode: self.input_mode@,
            input_text: self.input_text@,
        }
    }
}

pub open spec fn steps_view(s: Seq<AutomationStep>) -> Seq<StepView> {
    s.map_values(|a: AutomationStep| a@)
}

impl View for AutomationTemplate {
    type V = TemplateView;

    open spec fn view(&self) -> TemplateView {
        TemplateView {
            id: self.id@,
            name: self.name@,
            steps: steps_view(self.steps@),
            updated_at: self.updated_at,
        }
    }
}

pub open spec fn templates_view(s: Seq<AutomationTemplate>) -> Seq<TemplateView> {
    s.map_values(|t: AutomationTemplate| t@)
}

pub open spec fn rules_view(s: Seq<VisualRule>) -> Seq<RuleView> {
    s.map_values(|r: VisualRule| r@)
}

pub open spec fn chains_view(s: Seq<RuleChain>) -> Seq<ChainView> {
    s.map_values(|c: RuleChain| c@)
}

impl View for VisualRulesFile {
    type V = RulesFileView;

    open spec fn view(&self) -> RulesFileView {
        RulesFileView {
            rules: rules_view(self.rules@),
            chains: chains_view(self.chains@),
            steps: steps_view(self.steps@),
            templates: templates_view(self.templates@),
            active_template_id: self.active_template_id@,
        }
    }
}

// ---------------------------------------------------------------------------
// Copies
// ---------------------------------------------------------------------------
impl VisualRule {
    pub fn duplicate(&self) -> (res: VisualRule)
        ensures
            res@ == self@,
    {
        VisualRule {
            id: self.id.clone(),
            name: self.name.clone(),
            window_title: self.window_title.clone(),
            match_type: self.match_type.clone(),
            match_value: self.match_value.clone(),
            color_tolerance: self.color_tolerance,
            click: self.click,
        }
    }
}

impl ChainStep {
    pub fn duplicate(&self) -> (res: ChainStep)
        ensures
            res@ == self@,
    {
        ChainStep { id: self.id.clone(), rule_id: self.rule_id.clone(), delay_ms: self.delay_ms }
    }
}

impl AutomationStep {
    pub fn duplicate(&self) -> (res: AutomationStep)
        ensures
            res@ == self@,
    {
        AutomationStep {
            id: self.id.clone(),
            name: self.name.clone(),
            action: self.action.clone(),
            window_title: self.window_title.clone(),
            match_type: self.match_type.clone(),
            match_value: self.match_value.clone(),
            color_tolerance: self.color_tolerance,
            click: self.click,
            enabled: self.enabled,
            delay_ms: self.delay_ms,
            delay_unit: self.delay_unit.clone(),
            time_after_step: self.time_after_step,
            last_measured_ms: self.last_measured_ms,
            offset_x: self.offset_x,
            offset_y: self.offset_y,
            input_mode: self.input_mode.clone(),
            input_text: self.input_text.clone(),
        }
    }
}

/// A copy of a list of steps.
pub fn copy_steps(steps: &[AutomationStep]) -> (res: Vec<AutomationStep>)
    ensures
        steps_view(res@) == steps_view(steps@),
{
    let mut out: Vec<AutomationStep> = Vec::new();
    let mut i: usize = 0;
    while i < steps.len()
        invariant
            i <= steps@.len(),
            out@.len() == i,
            forall|j: int| 0 <= j < i ==> (#[trigger] out@[j])@ == steps@[j]@,
        decreases steps@.len() - i,
    {
        out.push(steps[i].duplicate());
        i = i + 1;
    }
    assert(steps_view(out@) =~= steps_view(steps@));
    out
}

impl AutomationTemplate {
    pub fn duplicate(&self) -> (res: AutomationTemplate)
        ensures
            res@ == self@,
    {
        AutomationTemplate {
            id: self.id.clone(),
            name: self.name.clone(),
            steps: copy_steps(self.steps.as_slice()),
            updated_at: self.updated_at,
        }
    }
}

/// A copy of a list of templates.
pub fn copy_templates(ts: &[AutomationTemplate]) -> (res: Vec<AutomationTemplate>)
    ensures
        templates_view(res@) == templates_view(ts@),
{
    let mut out: Vec<AutomationTemplate> = Vec::new();
    let mut i: usize = 0;
    while i < ts.len()
        invariant
            i <= ts@.len(),
            out@.len() == i,
            forall|j: int| 0 <= j < i ==> (#[trigger] out@[j])@ == ts@[j]@,
        decreases ts@.len() - i,
    {
        out.push(ts[i].duplicate());
        i = i + 1;
    }
    assert(templates_view(out@) =~= templates_view(ts@));
    out
}

// ---------------------------------------------------------------------------
// Defaults of stored fields
// ---------------------------------------------------------------------------
/// Colour tolerance of a stored rule or step that names none.
pub fn default_tolerance() -> (res: u32)
    ensures
        res == 24,
{
    24
}

/// Delay of a stored step that names none, in milliseconds.
pub fn default_delay() -> (res: u64)
    ensures
        res == 1000,
{
    1000
}

pub fn default_action() -> (res: String)
    ensures
        res@ == "click"@,
{
    String::from_str("click")
}

pub fn default_input_mode() -> (res: String)
    ensures
        res@ == "installBase"@,
{
    String::from_str("installBase")
}

pub fn default_enabled() -> (res: bool)
    ensures
        res,
{
    true
}

pub fn default_delay_unit() -> (res: String)
    ensures
        res@ == "ms"@,
{
    String::from_str("ms")
}

/// The template every rules file starts with.
pub open spec fn default_template(steps: Seq<StepView>, now: u64) -> TemplateView {
    TemplateView { id: "default"@, name: "默认模板"@, steps, updated_at: now }
}

/// A rules file with one empty default template, made at time `now`.
pub fn default_visual_rules_file(now: u64) -> (res: VisualRulesFile)
    ensures
        res@ == (RulesFileView {
            rules: Seq::empty(),
            chains: Seq::empty(),
            steps: Seq::empty(),
            templates: seq![default_template(Seq::empty(), now)],
            active_template_id: "default"@,
        }),
{
    let template = AutomationTemplate {
        id: String::from_str("default"),
        name: String::from_str("默认模板"),
        steps: Vec::new(),
        updated_at: now,
    };
    assert(template@.steps =~= Seq::<StepView>::empty());
    assert(template@ == default_template(Seq::empty(), now));
    let mut templates: Vec<AutomationTemplate> = Vec::new();
    templates.push(template);
    let f = VisualRulesFile {
        rules: Vec::new(),
        chains: Vec::new(),
        steps: Vec::new(),
        templates,
        active_template_id: String::from_str("default"),
    };
    assert(f@.templates =~= seq![default_template(Seq::empty(), now)]);
    assert(f@.rules =~= Seq::<RuleView>::empty());
    assert(f@.chains =~= Seq::<ChainView>::empty());
    assert(f@.steps =~= Seq::<StepView>::empty());
    f
}

/// An empty rules file without templates, as an unreadable file is taken.
pub fn empty_visual_rules_file() -> (res: VisualRulesFile)
    ensures
        res@.rules.len() == 0,
        res@.chains.len() == 0,
        res@.steps.len() == 0,
        res@.templates.len() == 0,
        res@.active_template_id.len() == 0,
{
    VisualRulesFile {
        rules: Vec::new(),
        chains: Vec::new(),
        steps: Vec::new(),
        templates: Vec::new(),
        active_template_id: String::new(),
    }
}

// ---------------------------------------------------------------------------
// Template names and ids
// ---------------------------------------------------------------------------
/// A template name: trimmed, at most 40 characters, `未命名模板` when blank.
pub open spec fn template_name(name: Seq<char>) -> Seq<char> {
    let clean = trim(name);
    if clean.len() == 0 {
        "未命名模板"@
    } else if clean.len() > 40 {
        clean.take(40)
    } else {
        clean
    }
}

pub fn sanitize_template_name(name: &str) -> (res: String)
    ensures
        res@ == template_name(name@),
{
    let clean = crate::text::trimmed(name);
    if clean.len() == 0 {
        String::from_str("未命名模板")
    } else if clean.len() > 40 {
        let t = crate::text::slice_chars(clean.as_slice(), 0, 40);
        string_from_chars(t.as_slice())
    } else {
        string_from_chars(clean.as_slice())
    }
}

/// `template-{now}`.
pub fn new_template_id(now: u64) -> (res: String)
    ensures
        res@ == "template-"@ + crate::text::decimal(now as nat),
{
    let mut v = chars_of("template-");
    push_decimal(&mut v, now as u128);
    string_from_chars(v.as_slice())
}

// ---------------------------------------------------------------------------
// Effective steps
// ---------------------------------------------------------------------------
/// The automation step that an old-style rule stands for.
pub open spec fn rule_step(rule: RuleView, id: Seq<char>, delay_ms: u64) -> StepView {
    StepView {
        id,
        name: rule.name,
        action: "click"@,
        window_title: rule.window_title,
        match_type: rule.match_type,
        match_value: rule.match_value,
        color_tolerance: rule.color_tolerance,
        click: rule.click,
        enabled: true,
        delay_ms,
        delay_unit: "ms"@,
        time_after_step: false,
        last_measured_ms: 0,
        offset_x: 0,
        offset_y: 0,
        input_mode: "installBase"@,
        input_text: Seq::empty(),
    }
}

pub fn rule_to_step(rule: &VisualRule, id: &str, delay_ms: u64) -> (res: AutomationStep)
    ensures
        res@ == rule_step(rule@, id@, delay_ms),
{
    AutomationStep {
        id: String::from_str(id),
        name: rule.name.clone(),
        action: String::from_str("click"),
        window_title: rule.window_title.clone(),
        match_type: rule.match_type.clone(),
        match_value: rule.match_value.clone(),
        color_tolerance: rule.color_tolerance,
        click: rule.click,
        enabled: true,
        delay_ms,
        delay_unit: default_delay_unit(),
        time_after_step: false,
        last_measured_ms: 0,
        offset_x: 0,
        offset_y: 0,
        input_mode: String::from_str("installBase"),
        input_text: String::new(),
    }
}

/// The position of the first rule with this id.
pub open spec fn first_rule(rules: Seq<RuleView>, id: Seq<char>) -> Option<int>
    decreases rules.len(),
{
    if rules.len() == 0 {
        None
    } else if rules[0].id == id {
        Some(0)
    } else {
        match first_rule(rules.drop_first(), id) {
            Some(k) => Some(k + 1),
            None => None,
        }
    }
}

proof fn lemma_first_rule(rules: Seq<RuleView>, id: Seq<char>, i: int)
    requires
        0 <= i <= rules.len(),
        forall|j: int| 0 <= j < i ==> rules[j].id != id,
    ensures
        i < rules.len() && rules[i].id == id ==> first_rule(rules, id) == Some(i),
        i == rules.len() ==> first_rule(rules, id).is_none(),
    decreases i,
{
    if i > 0 {
        assert forall|j: int| 0 <= j < i - 1 implies rules.drop_first()[j].id != id by {
            assert(rules.drop_first()[j] == rules[j + 1]);
        }
        lemma_first_rule(rules.drop_first(), id, i - 1);
    }
}

/// The position of the first rule with this id.
pub fn find_rule(rules: &[VisualRule], id: &str) -> (res: Option<usize>)
    ensures
        match res {
            Some(k) => k < rules@.len() && first_rule(rules_view(rules@), id@) == Some(k as int),
            None => first_rule(rules_view(rules@), id@).is_none(),
        },
{
    let ghost v = rules_view(rules@);
    let mut i: usize = 0;
    while i < rules.len()
        invariant
            i <= rules@.len(),
            v == rules_view(rules@),
            forall|j: int| 0 <= j < i ==> v[j].id != id@,
        decreases rules@.len() - i,
    {
        if crate::text::str_eq(rules[i].id.as_str(), id) {
            proof {
                lemma_first_rule(v, id@, i as int);
            }
            return Some(i);
        }
        i = i + 1;
    }
    proof {
        lemma_first_rule(v, id@, i as int);
    }
    None
}

/// The step that a chain step stands for, when its rule exists.
pub open spec fn chain_step_as_step(rules: Seq<RuleView>, s: ChainStepView) -> Option<StepView> {
    match first_rule(rules, s.rule_id) {
        Some(k) => Some(rule_step(rules[k], s.id, s.delay_ms)),
        None => None,
    }
}

/// The steps of a file read without templates: its own steps, else those of
/// its first chain, else one step per rule.
pub open spec fn steps_without_templates(f: RulesFileView) -> Seq<StepView> {
    if f.steps.len() > 0 {
        f.steps
    } else if f.chains.len() > 0 {
        f.chains[0].steps.filter_map(|s: ChainStepView| chain_step_as_step(f.rules, s))
    } else {
        f.rules.map_values(|r: RuleView| rule_step(r, r.id, 1000))
    }
}

pub fn effective_steps_without_templates(file: &VisualRulesFile) -> (res: Vec<AutomationStep>)
    ensures
        steps_view(res@) == steps_without_templates(file@),
{
    if file.steps.len() > 0 {
        return copy_steps(file.steps.as_slice());
    }
    if file.chains.len() > 0 {
        let chain = &file.chains[0];
        let ghost cs = chain_steps_view(chain.steps@);
        let ghost rv = rules_view(file.rules@);
        let ghost fm = |s: ChainStepView| chain_step_as_step(rv, s);
        assert(file@.chains[0] == chain@);
        let mut out: Vec<AutomationStep> = Vec::new();
        let mut i: usize = 0;
        assert(cs.take(0).filter_map(fm) =~= Seq::<StepView>::empty());
        while i < chain.steps.len()
            invariant
                i <= chain.steps@.len(),
                cs == chain_steps_view(chain.steps@),
                rv == rules_view(file.rules@),
                fm == (|s: ChainStepView| chain_step_as_step(rv, s)),
                steps_view(out@) == cs.take(i as int).filter_map(fm),
            decreases chain.steps@.len() - i,
        {
            let s = &chain.steps[i];
            assert(cs.take(i + 1).drop_last() =~= cs.take(i as int));
            assert(cs.take(i + 1).last() == s@);
            match find_rule(file.rules.as_slice(), s.rule_id.as_str()) {
                Some(k) => {
                    let st = rule_to_step(&file.rules[k], s.id.as_str(), s.delay_ms);
                    let ghost before = out@;
                    out.push(st);
                    assert(steps_view(out@) =~= steps_view(before) + seq![st@]);
                },
                None => {},
            }
            i = i + 1;
        }
        assert(cs.take(i as int) =~= cs);
        return out;
    }
    let mut out: Vec<AutomationStep> = Vec::new();
    let mut i: usize = 0;
    while i < file.rules.len()
        invariant
            i <= file.rules@.len(),
            out@.len() == i,
            forall|j: int|
                0 <= j < i ==> (#[trigger] out@[j])@ == rule_step(
                    file.rules@[j]@,
                    file.rules@[j]@.id,
                    1000,
                ),
        decreases file.rules@.len() - i,
    {
        let r = &file.rules[i];
        out.push(rule_to_step(r, r.id.as_str(), 1000));
        i = i + 1;
    }
    assert(steps_view(out@) =~= rules_view(file.rules@).map_values(
        |r: RuleView| rule_step(r, r.id, 1000),
    ));
    out
}

/// The position of the first template with this id.
pub open spec fn first_template(ts: Seq<TemplateView>, id: Seq<char>) -> Option<int>
    decreases ts.len(),
{
    if ts.len() == 0 {
        None
    } else if ts[0].id == id {
        Some(0)
    } else {
        match first_template(ts.drop_first(), id) {
            Some(k) => Some(k + 1),
            None => None,
        }
    }
}

proof fn lemma_first_template(ts: Seq<TemplateView>, id: Seq<char>, i: int)
    requires
        0 <= i <= ts.len(),
        forall|j: int| 0 <= j < i ==> ts[j].id != id,
    ensures
        i < ts.len() && ts[i].id == id ==> first_template(ts, id) == Some(i),
        i == ts.len() ==> first_template(ts, id).is_none(),
    decreases i,
{
    if i > 0 {
        assert forall|j: int| 0 <= j < i - 1 implies ts.drop_first()[j].id != id by {
            assert(ts.drop_first()[j] == ts[j + 1]);
        }
        lemma_first_template(ts.drop_first(), id, i - 1);
    }
}

pub proof fn lemma_first_template_found(ts: Seq<TemplateView>, id: Seq<char>)
    ensures
        match first_template(ts, id) {
            Some(k) => 0 <= k < ts.len() && ts[k].id == id,
            None => forall|j: int| 0 <= j < ts.len() ==> ts[j].id != id,
        },
    decreases ts.len(),
{
    if ts.len() > 0 {
        lemma_first_template_found(ts.drop_first(), id);
        match first_template(ts.drop_first(), id) {
            Some(k) => {
                assert(ts.drop_first()[k] == ts[k + 1]);
            },
            None => {
                assert forall|j: int| 0 <= j < ts.len() && ts[0].id != id implies (
                #[trigger] ts[j]).id != id by {
                    if j > 0 {
                        assert(ts[j] == ts.drop_first()[j - 1]);
                    }
                }
            },
        }
    }
}

/// The position of the first template with this id.
pub fn find_template(ts: &[AutomationTemplate], id: &str) -> (res: Option<usize>)
    ensures
        match res {
            Some(k) => k < ts@.len() && first_template(templates_view(ts@), id@) == Some(k as int),
            None => first_template(templates_view(ts@), id@).is_none(),
        },
{
    let ghost v = templates_view(ts@);
    let mut i: usize = 0;
    while i < ts.len()
        invariant
            i <= ts@.len(),
            v == templates_view(ts@),
            forall|j: int| 0 <= j < i ==> v[j].id != id@,
        decreases ts@.len() - i,
    {
        if crate::text::str_eq(ts[i].id.as_str(), id) {
            proof {
                lemma_first_template(v, id@, i as int);
            }
            return Some(i);
        }
        i = i + 1;
    }
    proof {
        lemma_first_template(v, id@, i as int);
    }
    None
}

proof fn lemma_first_rule_found(rules: Seq<RuleView>, id: Seq<char>)
    ensures
        match first_rule(rules, id) {
            Some(k) => 0 <= k < rules.len() && rules[k].id == id,
            None => forall|j: int| 0 <= j < rules.len() ==> (#[trigger] rules[j]).id != id,
        },
    decreases rules.len(),
{
    if rules.len() > 0 {
        lemma_first_rule_found(rules.drop_first(), id);
        if rules[0].id != id {
            assert forall|j: int| 0 < j < rules.len() implies (#[trigger] rules[j]).id == rules.drop_first()[j - 1].id by {}
        }
    }
}

/// A step made from a rule does what the rule did: it clicks exactly when
/// the rule clicked, and matches the same window, by the same kind of match,
/// value and colour tolerance, under the rule's name. It is an enabled click
/// step with the given id and delay in milliseconds and no offset.
pub proof fn law_rule_step_keeps_the_rule(rule: RuleView, id: Seq<char>, delay_ms: u64)
    ensures
        rule_step(rule, id, delay_ms).click == rule.click,
        rule_step(rule, id, delay_ms).name == rule.name,
        rule_step(rule, id, delay_ms).window_title == rule.window_title,
        rule_step(rule, id, delay_ms).match_type == rule.match_type,
        rule_step(rule, id, delay_ms).match_value == rule.match_value,
        rule_step(rule, id, delay_ms).color_tolerance == rule.color_tolerance,
        rule_step(rule, id, delay_ms).id == id,
        rule_step(rule, id, delay_ms).delay_ms == delay_ms,
        rule_step(rule, id, delay_ms).delay_unit == "ms"@,
        rule_step(rule, id, delay_ms).action == "click"@,
        rule_step(rule, id, delay_ms).enabled,
        rule_step(rule, id, delay_ms).offset_x == 0 && rule_step(rule, id, delay_ms).offset_y == 0,
{
}

/// An old file with rules only reads as one step per rule, in order: each
/// step has the rule's id, clicks exactly when the rule clicked, matches what
/// the rule matched and waits one second.
pub proof fn law_old_rules_become_steps(f: RulesFileView)
    requires
        f.steps.len() == 0,
        f.chains.len() == 0,
    ensures
        steps_without_templates(f).len() == f.rules.len(),
        forall|i: int|
            0 <= i < f.rules.len() ==> {
                let st = #[trigger] steps_without_templates(f)[i];
                &&& st.id == f.rules[i].id
                &&& st.click == f.rules[i].click
                &&& st.window_title == f.rules[i].window_title
                &&& st.match_type == f.rules[i].match_type
                &&& st.match_value == f.rules[i].match_value
                &&& st.color_tolerance == f.rules[i].color_tolerance
                &&& st.delay_ms == 1000
            },
        f.templates.len() == 0 ==> effective_steps_spec(f) == steps_without_templates(f),
{
}

/// A chain step stands for the first rule with its rule id, when there is
/// one: it clicks exactly when that rule clicked, matches what it matched,
/// and keeps the chain step's own id and delay; with no such rule it is
/// dropped.
pub proof fn law_chain_steps_follow_their_rule(rules: Seq<RuleView>, s: ChainStepView)
    ensures
        match chain_step_as_step(rules, s) {
            Some(st) => exists|k: int|
                0 <= k < rules.len() && (#[trigger] rules[k]).id == s.rule_id && st.click
                    == rules[k].click && st.match_type == rules[k].match_type && st.match_value
                    == rules[k].match_value && st.window_title == rules[k].window_title
                    && st.id == s.id && st.delay_ms == s.delay_ms,
            None => forall|j: int| 0 <= j < rules.len() ==> (#[trigger] rules[j]).id != s.rule_id,
        },
{
    lemma_first_rule_found(rules, s.rule_id);
    match first_rule(rules, s.rule_id) {
        Some(k) => {
            assert(rules[k].id == s.rule_id);
        },
        None => {},
    }
}

/// The steps in effect: those of the active template, or, without one, the
/// file read without templates.
pub open spec fn effective_steps_spec(f: RulesFileView) -> Seq<StepView> {
    match first_template(f.templates, f.active_template_id) {
        Some(k) => f.templates[k].steps,
        None => steps_without_templates(f),
    }
}

pub fn effective_steps(file: &VisualRulesFile) -> (res: Vec<AutomationStep>)
    ensures
        steps_view(res@) == effective_steps_spec(file@),
{
    match find_template(file.templates.as_slice(), file.active_template_id.as_str()) {
        Some(k) => copy_steps(file.templates[k].steps.as_slice()),
        None => effective_steps_without_templates(file),
    }
}

// ---------------------------------------------------------------------------
// Template state
// ---------------------------------------------------------------------------
/// The state every command leaves a rules file in: at least one template,
/// the active one exists, and the file's steps are the active template's.
pub open spec fn template_state_ok(f: RulesFileView) -> bool {
    &&& f.templates.len() > 0
    &&& first_template(f.templates, f.active_template_id) is Some
    &&& f.steps == f.templates[first_template(f.templates, f.active_template_id)->0].steps
}

/// A file brought into that state at time `now`: a file without templates
/// gets a default one holding its steps (or its first chain's steps); an
/// active id that names no template falls back to the first template; and
/// the file's steps are refreshed from the active template.
pub open spec fn ensured_state(f: RulesFileView, now: u64) -> RulesFileView {
    let f1 = if f.templates.len() == 0 {
        let steps = if f.steps.len() > 0 {
            f.steps
        } else if f.chains.len() > 0 {
            steps_without_templates(f)
        } else {
            Seq::empty()
        };
        RulesFileView {
            templates: seq![default_template(steps, now)],
            active_template_id: "default"@,
            steps,
            ..f
        }
    } else {
        f
    };
    let f2 = if first_template(f1.templates, f1.active_template_id) is None {
        RulesFileView { active_template_id: f1.templates[0].id, ..f1 }
    } else {
        f1
    };
    match first_template(f2.templates, f2.active_template_id) {
        Some(k) => RulesFileView { steps: f2.templates[k].steps, ..f2 },
        None => f2,
    }
}

pub proof fn lemma_ensured_state_ok(f: RulesFileView, now: u64)
    ensures
        template_state_ok(ensured_state(f, now)),
        ensured_state(f, now).rules == f.rules,
        ensured_state(f, now).chains == f.chains,
        f.templates.len() > 0 ==> ensured_state(f, now).templates == f.templates,
{
    reveal_strlit("default");
    let f1 = if f.templates.len() == 0 {
        let steps = if f.steps.len() > 0 {
            f.steps
        } else if f.chains.len() > 0 {
            steps_without_templates(f)
        } else {
            Seq::empty()
        };
        RulesFileView {
            templates: seq![default_template(steps, now)],
            active_template_id: "default"@,
            steps,
            ..f
        }
    } else {
        f
    };
    if f.templates.len() == 0 {
        assert(f1.templates[0].id == "default"@);
        lemma_first_template(f1.templates, f1.active_template_id, 0);
    }
    let f2 = if first_template(f1.templates, f1.active_template_id) is None {
        RulesFileView { active_template_id: f1.templates[0].id, ..f1 }
    } else {
        f1
    };
    if first_template(f1.templates, f1.active_template_id) is None {
        lemma_first_template(f2.templates, f2.active_template_id, 0);
    }
}

/// Brings a rules file into the template state (see [`template_state_ok`]).
pub fn ensure_template_state(file: &mut VisualRulesFile, now: u64)
    ensures
        final(file)@ == ensured_state(old(file)@, now),
        template_state_ok(final(file)@),
{
    proof {
        lemma_ensured_state_ok(file@, now);
    }
    if file.templates.len() == 0 {
        let steps = if file.steps.len() > 0 {
            copy_steps(file.steps.as_slice())
        } else if file.chains.len() > 0 {
            effective_steps_without_templates(file)
        } else {
            Vec::new()
        };
        let t = AutomationTemplate {
            id: String::from_str("default"),
            name: String::from_str("默认模板"),
            steps: copy_steps(steps.as_slice()),
            updated_at: now,
        };
        let ghost before = file@;
        file.templates.push(t);
        file.active_template_id = String::from_str("default");
        file.steps = steps;
        assert(file@.templates =~= seq![default_template(file@.steps, now)]);
        assert(file@.steps == (if before.steps.len() > 0 {
            before.steps
        } else if before.chains.len() > 0 {
            steps_without_templates(before)
        } else {
            Seq::<StepView>::empty()
        }));
    }
    if find_template(file.templates.as_slice(), file.active_template_id.as_str()).is_none() {
        file.active_template_id = file.templates[0].id.clone();
    }
    match find_template(file.templates.as_slice(), file.active_template_id.as_str()) {
        Some(k) => {
            file.steps = copy_steps(file.templates[k].steps.as_slice());
        },
        None => {},
    }
}

/// In the template state the steps in effect are the file's own steps.
pub proof fn law_effective_steps_are_file_steps(f: RulesFileView)
    requires
        template_state_ok(f),
    ensures
        effective_steps_spec(f) == f.steps,
{
}

/// Bringing a file into the template state twice changes nothing more.
pub proof fn law_ensure_template_state_idempotent(f: RulesFileView, now: u64, later: u64)
    ensures
        ensured_state(ensured_state(f, now), later) == ensured_state(f, now),
{
    lemma_ensured_state_ok(f, now);
    let g = ensured_state(f, now);
    assert(ensured_state(g, later) =~= g);
}

// ---------------------------------------------------------------------------
// Template commands
// ---------------------------------------------------------------------------
/// No two templates share an id.
pub open spec fn distinct_template_ids(ts: Seq<TemplateView>) -> bool {
    forall|i: int, j: int| 0 <= i < j < ts.len() ==> ts[i].id != ts[j].id
}

proof fn lemma_distinct_first(ts: Seq<TemplateView>, k: int)
    requires
        distinct_template_ids(ts),
        0 <= k < ts.len(),
    ensures
        first_template(ts, ts[k].id) == Some(k),
{
    lemma_first_template(ts, ts[k].id, k);
}

/// The file after the active template's steps are replaced at time `now`.
pub open spec fn saved_steps_state(f: RulesFileView, steps: Seq<StepView>, now: u64) -> RulesFileView {
    let g = ensured_state(f, now);
    let k = first_template(g.templates, g.active_template_id)->0;
    RulesFileView {
        templates: g.templates.update(
            k,
            TemplateView { steps, updated_at: now, ..g.templates[k] },
        ),
        steps,
        ..g
    }
}

/// Replaces the steps of the active template.
pub fn save_automation_steps(file: &mut VisualRulesFile, steps: Vec<AutomationStep>, now: u64)
    ensures
        final(file)@ == saved_steps_state(old(file)@, steps_view(steps@), now),
        template_state_ok(final(file)@),
        effective_steps_spec(final(file)@) == steps_view(steps@),
{
    ensure_template_state(file, now);
    let ghost g = file@;
    match find_template(file.templates.as_slice(), file.active_template_id.as_str()) {
        Some(k) => {
            let mut t = file.templates[k].duplicate();
            t.steps = copy_steps(steps.as_slice());
            t.updated_at = now;
            file.templates.set(k, t);
            assert(file@.templates =~= g.templates.update(
                k as int,
                TemplateView { steps: steps_view(steps@), updated_at: now, ..g.templates[k as int] },
            ));
        },
        None => {},
    }
    file.steps = steps;
    proof {
        let k = first_template(g.templates, g.active_template_id)->0;
        lemma_first_template_found(g.templates, g.active_template_id);
        lemma_first_template_prefix_update(g.templates, g.active_template_id, k, TemplateView {
            steps: steps_view(steps@),
            updated_at: now,
            ..g.templates[k]
        });
    }
}

/// A file already in the template state is left as it is.
proof fn lemma_ensured_state_of_ok(f: RulesFileView, now: u64)
    requires
        template_state_ok(f),
    ensures
        ensured_state(f, now) == f,
{
    let k = first_template(f.templates, f.active_template_id)->0;
    assert(ensured_state(f, now) =~= RulesFileView { steps: f.templates[k].steps, ..f });
}

/// Reading the steps back after saving them gives the saved steps, also
/// once the file is brought into the template state again.
pub proof fn law_steps_read_after_save(f: RulesFileView, steps: Seq<StepView>, now: u64, later: u64)
    ensures
        template_state_ok(saved_steps_state(f, steps, now)),
        ensured_state(saved_steps_state(f, steps, now), later) == saved_steps_state(f, steps, now),
        effective_steps_spec(ensured_state(saved_steps_state(f, steps, now), later)) == steps,
{
    let g = ensured_state(f, now);
    lemma_ensured_state_ok(f, now);
    let k = first_template(g.templates, g.active_template_id)->0;
    lemma_first_template_found(g.templates, g.active_template_id);
    let t = TemplateView { steps, updated_at: now, ..g.templates[k] };
    lemma_first_template_prefix_update(g.templates, g.active_template_id, k, t);
    let h = saved_steps_state(f, steps, now);
    assert(h.templates == g.templates.update(k, t));
    assert(first_template(h.templates, h.active_template_id) == Some(k));
    assert(h.templates[k].steps == steps);
    assert(template_state_ok(h));
    lemma_ensured_state_of_ok(h, later);
}

/// Replacing a template by one with the same id keeps where the first
/// template with that id is.
proof fn lemma_first_template_prefix_update(
    ts: Seq<TemplateView>,
    id: Seq<char>,
    k: int,
    t: TemplateView,
)
    requires
        first_template(ts, id) == Some(k),
        t.id == ts[k].id,
    ensures
        first_template(ts.update(k, t), id) == Some(k),
    decreases ts.len(),
{
    lemma_first_template_found(ts, id);
    if k > 0 {
        assert(ts.update(k, t).drop_first() =~= ts.drop_first().update(k - 1, t));
        match first_template(ts.drop_first(), id) {
            Some(j) => {
                lemma_first_template_prefix_update(ts.drop_first(), id, k - 1, t);
            },
            None => {},
        }
    }
}

/// The position of the first template whose name equals `name` ignoring
/// ASCII case.
pub open spec fn first_template_named(ts: Seq<TemplateView>, name: Seq<char>) -> Option<int>
    decreases ts.len(),
{
    if ts.len() == 0 {
        None
    } else if crate::text::eq_ignore_ascii_case(ts[0].name, name) {
        Some(0)
    } else {
        match first_template_named(ts.drop_first(), name) {
            Some(k) => Some(k + 1),
            None => None,
        }
    }
}

proof fn lemma_first_template_named(ts: Seq<TemplateView>, name: Seq<char>, i: int)
    requires
        0 <= i <= ts.len(),
        forall|j: int| 0 <= j < i ==> !crate::text::eq_ignore_ascii_case(ts[j].name, name),
    ensures
        i < ts.len() && crate::text::eq_ignore_ascii_case(ts[i].name, name) ==> first_template_named(
            ts,
            name,
        ) == Some(i),
        i == ts.len() ==> first_template_named(ts, name).is_none(),
    decreases i,
{
    if i > 0 {
        assert forall|j: int| 0 <= j < i - 1 implies !crate::text::eq_ignore_ascii_case(
            ts.drop_first()[j].name,
            name,
        ) by {
            assert(ts.drop_first()[j] == ts[j + 1]);
        }
        lemma_first_template_named(ts.drop_first(), name, i - 1);
    }
}

fn find_template_named(ts: &[AutomationTemplate], name: &str) -> (res: Option<usize>)
    ensures
        match res {
            Some(k) => k < ts@.len() && first_template_named(templates_view(ts@), name@) == Some(
                k as int,
            ),
            None => first_template_named(templates_view(ts@), name@).is_none(),
        },
{
    let ghost v = templates_view(ts@);
    let n = chars_of(name);
    let mut i: usize = 0;
    while i < ts.len()
        invariant
            i <= ts@.len(),
            v == templates_view(ts@),
            n@ == name@,
            forall|j: int| 0 <= j < i ==> !crate::text::eq_ignore_ascii_case(v[j].name, name@),
        decreases ts@.len() - i,
    {
        let tn = chars_of(ts[i].name.as_str());
        if crate::text::eq_ignore_ascii_case_exec(tn.as_slice(), n.as_slice()) {
            proof {
                lemma_first_template_named(v, name@, i as int);
            }
            return Some(i);
        }
        i = i + 1;
    }
    proof {
        lemma_first_template_named(v, name@, i as int);
    }
    None
}

/// The template that saving `steps` under `name` at time `now` writes:
/// the first template with that name (ignoring ASCII case) updated, or a new
/// one with id `template-{now}`.
pub open spec fn saved_template(f: RulesFileView, name: Seq<char>, steps: Seq<StepView>, now: u64) -> TemplateView {
    let g = ensured_state(f, now);
    let n = template_name(name);
    match first_template_named(g.templates, n) {
        Some(k) => TemplateView { name: n, steps, updated_at: now, ..g.templates[k] },
        None => TemplateView {
            id: "template-"@ + crate::text::decimal(now as nat),
            name: n,
            steps,
            updated_at: now,
        },
    }
}

/// The file after saving a template: the template stored and made active.
pub open spec fn saved_template_state(f: RulesFileView, name: Seq<char>, steps: Seq<StepView>, now: u64) -> RulesFileView {
    let g = ensured_state(f, now);
    let t = saved_template(f, name, steps, now);
    RulesFileView {
        templates: match first_template_named(g.templates, template_name(name)) {
            Some(k) => g.templates.update(k, t),
            None => g.templates.push(t),
        },
        active_template_id: t.id,
        steps,
        ..g
    }
}

/// Saves `steps` as the template called `name` and makes it active.
pub fn save_automation_template(
    file: &mut VisualRulesFile,
    name: &str,
    steps: Vec<AutomationStep>,
    now: u64,
) -> (res: AutomationTemplate)
    ensures
        res@ == saved_template(old(file)@, name@, steps_view(steps@), now),
        final(file)@ == saved_template_state(old(file)@, name@, steps_view(steps@), now),
{
    ensure_template_state(file, now);
    let ghost g = file@;
    let n = sanitize_template_name(name);
    match find_template_named(file.templates.as_slice(), n.as_str()) {
        Some(k) => {
            let mut t = file.templates[k].duplicate();
            t.name = n;
            t.steps = copy_steps(steps.as_slice());
            t.updated_at = now;
            let saved = t.duplicate();
            file.templates.set(k, t);
            file.active_template_id = saved.id.clone();
            file.steps = steps;
            assert(file@.templates =~= g.templates.update(k as int, saved@));
            saved
        },
        None => {
            let t = AutomationTemplate {
                id: new_template_id(now),
                name: n,
                steps: copy_steps(steps.as_slice()),
                updated_at: now,
            };
            let saved = t.duplicate();
            file.active_template_id = t.id.clone();
            file.steps = steps;
            file.templates.push(t);
            assert(file@.templates =~= g.templates.push(saved@));
            saved
        },
    }
}

/// Saving a template makes it the active one and its steps the steps in
/// effect, provided template ids stay distinct.
pub proof fn law_saved_template_in_effect(f: RulesFileView, name: Seq<char>, steps: Seq<StepView>, now: u64)
    requires
        distinct_template_ids(ensured_state(f, now).templates),
        first_template_named(ensured_state(f, now).templates, template_name(name)) is None
            ==> first_template(ensured_state(f, now).templates, "template-"@ + crate::text::decimal(now as nat)) is None,
    ensures
        template_state_ok(saved_template_state(f, name, steps, now)),
        effective_steps_spec(saved_template_state(f, name, steps, now)) == steps,
        saved_template_state(f, name, steps, now).active_template_id == saved_template(f, name, steps, now).id,
{
    let g = ensured_state(f, now);
    lemma_ensured_state_ok(f, now);
    let t = saved_template(f, name, steps, now);
    let h = saved_template_state(f, name, steps, now);
    match first_template_named(g.templates, template_name(name)) {
        Some(k) => {
            lemma_first_template_named_found(g.templates, template_name(name));
            assert(distinct_template_ids(h.templates)) by {
                assert forall|i: int, j: int| 0 <= i < j < h.templates.len() implies h.templates[i].id != h.templates[j].id by {
                    assert(h.templates[i].id == g.templates[i].id);
                    assert(h.templates[j].id == g.templates[j].id);
                }
            }
            assert(h.templates[k] == t);
            lemma_distinct_first(h.templates, k);
        },
        None => {
            let n = g.templates.len() as int;
            assert(h.templates[n] == t);
            lemma_first_template_found(g.templates, t.id);
            assert(distinct_template_ids(h.templates)) by {
                assert forall|i: int, j: int| 0 <= i < j < h.templates.len() implies h.templates[i].id != h.templates[j].id by {
                    if j == n {
                        assert(h.templates[i] == g.templates[i]);
                    }
                }
            }
            lemma_distinct_first(h.templates, n);
        },
    }
}

proof fn lemma_first_template_named_found(ts: Seq<TemplateView>, name: Seq<char>)
    ensures
        match first_template_named(ts, name) {
            Some(k) => 0 <= k < ts.len(),
            None => true,
        },
    decreases ts.len(),
{
    if ts.len() > 0 {
        lemma_first_template_named_found(ts.drop_first(), name);
    }
}

/// "找不到模板 {id}".
pub open spec fn missing_template_message(id: Seq<char>) -> Seq<char> {
    "找不到模板 "@ + id
}

fn missing_template_error(id: &str) -> (res: String)
    ensures
        res@ == missing_template_message(id@),
{
    let mut v = chars_of("找不到模板 ");
    push_str(&mut v, id);
    string_from_chars(v.as_slice())
}

/// Makes the template with this id active and returns its steps.
pub fn set_active_automation_template(file: &mut VisualRulesFile, template_id: &str, now: u64) -> (res:
    Result<Vec<AutomationStep>, String>)
    ensures
        ({
            let g = ensured_state(old(file)@, now);
            match first_template(g.templates, template_id@) {
                None => res matches Err(e) && e@ == missing_template_message(template_id@)
                    && final(file)@ == g,
                Some(k) => res matches Ok(steps) && steps_view(steps@) == g.templates[k].steps
                    && final(file)@ == (RulesFileView {
                    active_template_id: template_id@,
                    steps: g.templates[k].steps,
                    ..g
                }),
            }
        }),
        template_state_ok(final(file)@),
{
    ensure_template_state(file, now);
    match find_template(file.templates.as_slice(), template_id) {
        None => Err(missing_template_error(template_id)),
        Some(k) => {
            let steps = copy_steps(file.templates[k].steps.as_slice());
            file.active_template_id = String::from_str(template_id);
            file.steps = copy_steps(steps.as_slice());
            Ok(steps)
        },
    }
}

/// Activating a template puts its steps in effect, and reading the steps
/// back later gives them.
pub proof fn law_activated_template_in_effect(f: RulesFileView, id: Seq<char>, now: u64, later: u64)
    requires
        first_template(ensured_state(f, now).templates, id) is Some,
    ensures
        ({
            let g = ensured_state(f, now);
            let k = first_template(g.templates, id)->0;
            let h = RulesFileView { active_template_id: id, steps: g.templates[k].steps, ..g };
            &&& effective_steps_spec(h) == g.templates[k].steps
            &&& template_state_ok(h)
            &&& effective_steps_spec(ensured_state(h, later)) == g.templates[k].steps
        }),
{
    let g = ensured_state(f, now);
    lemma_ensured_state_ok(f, now);
    let k = first_template(g.templates, id)->0;
    let h = RulesFileView { active_template_id: id, steps: g.templates[k].steps, ..g };
    assert(template_state_ok(h));
    lemma_ensured_state_of_ok(h, later);
}

/// Reading the steps back after saving a template gives its steps, under
/// the conditions of [`law_saved_template_in_effect`].
pub proof fn law_template_read_after_save(
    f: RulesFileView,
    name: Seq<char>,
    steps: Seq<StepView>,
    now: u64,
    later: u64,
)
    requires
        distinct_template_ids(ensured_state(f, now).templates),
        first_template_named(ensured_state(f, now).templates, template_name(name)) is None
            ==> first_template(ensured_state(f, now).templates, "template-"@ + crate::text::decimal(now as nat)) is None,
    ensures
        effective_steps_spec(ensured_state(saved_template_state(f, name, steps, now), later)) == steps,
{
    law_saved_template_in_effect(f, name, steps, now);
    lemma_ensured_state_of_ok(saved_template_state(f, name, steps, now), later);
}

/// The file after deleting the templates with this id (when it succeeds).
pub open spec fn deleted_template_state(f: RulesFileView, id: Seq<char>, now: u64) -> RulesFileView {
    let g = ensured_state(f, now);
    let kept = g.templates.filter(|t: TemplateView| t.id != id);
    let active = if g.active_template_id == id {
        if kept.len() > 0 {
            kept[0].id
        } else {
            Seq::<char>::empty()
        }
    } else {
        g.active_template_id
    };
    RulesFileView {
        templates: kept,
        active_template_id: active,
        steps: match first_template(kept, active) {
            Some(k) => kept[k].steps,
            None => g.steps,
        },
        ..g
    }
}

/// Deletes the templates with this id; the last template cannot be deleted.
pub fn delete_automation_template(file: &mut VisualRulesFile, template_id: &str, now: u64) -> (res:
    Result<Vec<AutomationTemplate>, String>)
    ensures
        ({
            let g = ensured_state(old(file)@, now);
            if g.templates.len() <= 1 {
                res matches Err(e) && e@ == "至少保留一个模板"@ && final(file)@ == g
            } else if g.templates.filter(|t: TemplateView| t.id != template_id@).len()
                == g.templates.len() {
                res matches Err(e) && e@ == missing_template_message(template_id@)
                    && final(file)@.templates == g.templates
            } else {
                res matches Ok(ts) && final(file)@ == deleted_template_state(
                    old(file)@,
                    template_id@,
                    now,
                ) && templates_view(ts@) == final(file)@.templates
            }
        }),
{
    ensure_template_state(file, now);
    let ghost g = file@;
    if file.templates.len() <= 1 {
        return Err(String::from_str("至少保留一个模板"));
    }
    let ghost pred = |t: TemplateView| t.id != template_id@;
    let mut kept: Vec<AutomationTemplate> = Vec::new();
    let mut i: usize = 0;
    reveal(Seq::filter);
    assert(g.templates.take(0).filter(pred) =~= Seq::<TemplateView>::empty());
    while i < file.templates.len()
        invariant
            i <= file.templates@.len(),
            file@ == g,
            pred == (|t: TemplateView| t.id != template_id@),
            templates_view(kept@) == g.templates.take(i as int).filter(pred),
        decreases file.templates@.len() - i,
    {
        reveal(Seq::filter);
        assert(g.templates.take(i + 1).drop_last() =~= g.templates.take(i as int));
        assert(g.templates.take(i + 1).last() == file.templates@[i as int]@);
        if !crate::text::str_eq(file.templates[i].id.as_str(), template_id) {
            let ghost before = kept@;
            kept.push(file.templates[i].duplicate());
            assert(templates_view(kept@) =~= templates_view(before).push(file.templates@[i as int]@));
        }
        i = i + 1;
    }
    assert(g.templates.take(i as int) =~= g.templates);
    if kept.len() == file.templates.len() {
        return Err(missing_template_error(template_id));
    }
    let active = if crate::text::str_eq(file.active_template_id.as_str(), template_id) {
        if kept.len() > 0 {
            kept[0].id.clone()
        } else {
            String::new()
        }
    } else {
        file.active_template_id.clone()
    };
    match find_template(kept.as_slice(), active.as_str()) {
        Some(k) => {
            file.steps = copy_steps(kept[k].steps.as_slice());
        },
        None => {},
    }
    file.active_template_id = active;
    let result = copy_templates(kept.as_slice());
    file.templates = kept;
    Ok(result)
}

/// With distinct template ids, deleting a template keeps the file in the
/// template state (so at least one template remains).
pub proof fn law_delete_keeps_template_state(f: RulesFileView, id: Seq<char>, now: u64)
    requires
        distinct_template_ids(ensured_state(f, now).templates),
        ensured_state(f, now).templates.len() > 1,
    ensures
        template_state_ok(deleted_template_state(f, id, now)),
{
    let g = ensured_state(f, now);
    lemma_ensured_state_ok(f, now);
    let pred = |t: TemplateView| t.id != id;
    let kept = g.templates.filter(pred);
    lemma_filter_distinct(g.templates, id);
    let k0 = first_template(g.templates, g.active_template_id)->0;
    lemma_first_template_found(g.templates, g.active_template_id);
    if g.active_template_id == id {
        assert(kept.len() > 0);
        lemma_first_template(kept, kept[0].id, 0);
    } else {
        assert(kept.contains(g.templates[k0])) by {
            g.templates.lemma_filter_contains(pred, k0);
        }
        let j = choose|j: int| 0 <= j < kept.len() && kept[j] == g.templates[k0];
        assert(distinct_template_ids(kept));
        lemma_distinct_first(kept, j);
    }
}

/// Filtering out one id from distinct templates removes at most one of
/// them and keeps the rest distinct.
proof fn lemma_filter_distinct(ts: Seq<TemplateView>, id: Seq<char>)
    requires
        distinct_template_ids(ts),
    ensures
        ts.filter(|t: TemplateView| t.id != id).len() + 1 >= ts.len(),
        distinct_template_ids(ts.filter(|t: TemplateView| t.id != id)),
    decreases ts.len(),
{
    reveal(Seq::filter);
    let pred = |t: TemplateView| t.id != id;
    lemma_at_most_one_removed(ts, id);
    if ts.len() > 0 {
        let init = ts.drop_last();
        assert(distinct_template_ids(init)) by {
            assert forall|i: int, j: int| 0 <= i < j < init.len() implies init[i].id
                != init[j].id by {
                assert(init[i] == ts[i]);
                assert(init[j] == ts[j]);
            }
        }
        lemma_filter_distinct(init, id);
        let fi = init.filter(pred);
        if pred(ts.last()) {
            let out = fi.push(ts.last());
            assert forall|i: int, j: int| 0 <= i < j < out.len() implies out[i].id
                != out[j].id by {
                if j == fi.len() {
                    init.lemma_filter_contains_rev(pred, fi[i]);
                    let m = choose|m: int| 0 <= m < init.len() && init[m] == fi[i];
                    assert(ts[m] == init[m]);
                    assert(ts[ts.len() - 1] == ts.last());
                } else {
                    assert(out[i] == fi[i]);
                    assert(out[j] == fi[j]);
                }
            }
        }
    }
}

proof fn lemma_at_most_one_removed(ts: Seq<TemplateView>, id: Seq<char>)
    requires
        distinct_template_ids(ts),
    ensures
        ts.filter(|t: TemplateView| t.id != id).len() + 1 >= ts.len(),
        (exists|m: int| 0 <= m < ts.len() && ts[m].id == id) ==> ts.filter(
            |t: TemplateView| t.id != id,
        ).len() + 1 == ts.len(),
        (forall|m: int| 0 <= m < ts.len() ==> ts[m].id != id) ==> ts.filter(
            |t: TemplateView| t.id != id,
        ).len() == ts.len(),
    decreases ts.len(),
{
    reveal(Seq::filter);
    if ts.len() > 0 {
        let init = ts.drop_last();
        assert(distinct_template_ids(init)) by {
            assert forall|i: int, j: int| 0 <= i < j < init.len() implies init[i].id != init[j].id by {
                assert(init[i] == ts[i]);
                assert(init[j] == ts[j]);
            }
        }
        lemma_at_most_one_removed(init, id);
        if ts.last().id == id {
            assert forall|m: int| 0 <= m < init.len() implies init[m].id != id by {
                assert(init[m] == ts[m]);
            }
        } else {
            if exists|m: int| 0 <= m < ts.len() && ts[m].id == id {
                let m = choose|m: int| 0 <= m < ts.len() && ts[m].id == id;
                assert(init[m] == ts[m]);
            }
            if forall|m: int| 0 <= m < ts.len() ==> ts[m].id != id {
                assert forall|m: int| 0 <= m < init.len() implies init[m].id != id by {
                    assert(init[m] == ts[m]);
                }
            }
        }
    }
}

// ---------------------------------------------------------------------------
// Script requests
// ---------------------------------------------------------------------------
/// What the visual-target script is asked to find and do.
pub struct VisualScriptOptions {
    pub action: String,
    pub match_type: String,
    pub match_value: String,
    pub window_title: String,
    pub tolerance: u32,
    pub click: bool,
    pub dry_run: bool,
    pub offset_x: i32,
    pub offset_y: i32,
    pub input_text: Option<String>,
}

pub struct OptionsView {
    pub action: Seq<char>,
    pub match_type: Seq<char>,
    pub match_value: Seq<char>,
    pub window_title: Seq<char>,
    pub tolerance: u32,
    pub click: bool,
    pub dry_run: bool,
    pub offset_x: i32,
    pub offset_y: i32,
    pub input_text: Option<Seq<char>>,
}

impl View for VisualScriptOptions {
    type V = OptionsView;

    open spec fn view(&self) -> OptionsView {
        OptionsView {
            action: self.action@,
            match_type: self.match_type@,
            match_value: self.match_value@,
            window_title: self.window_title@,
            tolerance: self.tolerance,
            click: self.click,
            dry_run: self.dry_run,
            offset_x: self.offset_x,
            offset_y: self.offset_y,
            input_text: opt_string_view(self.input_text),
        }
    }
}

pub fn visual_script_opts(
    action: &str,
    match_type: &str,
    match_value: &str,
    window_title: &str,
    tolerance: u32,
    click: bool,
    dry_run: bool,
    offset_x: i32,
    offset_y: i32,
    input_text: Option<String>,
) -> (res: VisualScriptOptions)
    ensures
        res@ == (OptionsView {
            action: action@,
            match_type: match_type@,
            match_value: match_value@,
            window_title: window_title@,
            tolerance,
            click,
            dry_run,
            offset_x,
            offset_y,
            input_text: opt_string_view(input_text),
        }),
{
    VisualScriptOptions {
        action: String::from_str(action),
        match_type: String::from_str(match_type),
        match_value: String::from_str(match_value),
        window_title: String::from_str(window_title),
        tolerance,
        click,
        dry_run,
        offset_x,
        offset_y,
        input_text,
    }
}

/// The match kinds the script knows; anything else is a text match.
pub open spec fn match_kind(t: Seq<char>) -> Seq<char> {
    if t == "color"@ {
        "color"@
    } else if t == "point"@ {
        "point"@
    } else {
        "text"@
    }
}

pub fn normalize_match_type(t: &str) -> (res: &'static str)
    ensures
        res@ == match_kind(t@),
{
    if crate::text::str_eq(t, "color") {
        "color"
    } else if crate::text::str_eq(t, "point") {
        "point"
    } else {
        "text"
    }
}

/// The text an input step types: its own text when its input mode is
/// `custom`, the install base otherwise; only `inputText` steps type.
pub open spec fn input_text_spec(
    action: Seq<char>,
    input_mode: Seq<char>,
    input_text: Seq<char>,
    install_base: Seq<char>,
) -> Result<Option<Seq<char>>, Seq<char>> {
    if action != "inputText"@ {
        Ok(None)
    } else {
        let text = if input_mode == "custom"@ {
            trim(input_text)
        } else {
            install_base
        };
        if trim(text).len() == 0 {
            Err("输入路径不能为空"@)
        } else {
            Ok(Some(text))
        }
    }
}

pub fn resolve_input_text(action: &str, input_mode: &str, input_text: &str, install_base: &str) -> (res:
    Result<Option<String>, String>)
    ensures
        match res {
            Ok(t) => input_text_spec(action@, input_mode@, input_text@, install_base@) == Ok::<
                Option<Seq<char>>,
                Seq<char>,
            >(opt_string_view(t)),
            Err(e) => input_text_spec(action@, input_mode@, input_text@, install_base@) == Err::<
                Option<Seq<char>>,
                Seq<char>,
            >(e@),
        },
{
    if !crate::text::str_eq(action, "inputText") {
        return Ok(None);
    }
    let text = if crate::text::str_eq(input_mode, "custom") {
        crate::text::trim_string(input_text)
    } else {
        String::from_str(install_base)
    };
    if crate::text::is_blank(text.as_str()) {
        Err(String::from_str("输入路径不能为空"))
    } else {
        Ok(Some(text))
    }
}

pub open spec fn at_least_one(t: u32) -> u32 {
    if t < 1 {
        1
    } else {
        t
    }
}

/// The position of the first step with this id.
pub open spec fn first_step(steps: Seq<StepView>, id: Seq<char>) -> Option<int>
    decreases steps.len(),
{
    if steps.len() == 0 {
        None
    } else if steps[0].id == id {
        Some(0)
    } else {
        match first_step(steps.drop_first(), id) {
            Some(k) => Some(k + 1),
            None => None,
        }
    }
}

proof fn lemma_first_step(steps: Seq<StepView>, id: Seq<char>, i: int)
    requires
        0 <= i <= steps.len(),
        forall|j: int| 0 <= j < i ==> steps[j].id != id,
    ensures
        i < steps.len() && steps[i].id == id ==> first_step(steps, id) == Some(i),
        i == steps.len() ==> first_step(steps, id).is_none(),
    decreases i,
{
    if i > 0 {
        assert forall|j: int| 0 <= j < i - 1 implies steps.drop_first()[j].id != id by {
            assert(steps.drop_first()[j] == steps[j + 1]);
        }
        lemma_first_step(steps.drop_first(), id, i - 1);
    }
}

fn find_step(steps: &[AutomationStep], id: &str) -> (res: Option<usize>)
    ensures
        match res {
            Some(k) => k < steps@.len() && first_step(steps_view(steps@), id@) == Some(k as int),
            None => first_step(steps_view(steps@), id@).is_none(),
        },
{
    let ghost v = steps_view(steps@);
    let mut i: usize = 0;
    while i < steps.len()
        invariant
            i <= steps@.len(),
            v == steps_view(steps@),
            forall|j: int| 0 <= j < i ==> v[j].id != id@,
        decreases steps@.len() - i,
    {
        if crate::text::str_eq(steps[i].id.as_str(), id) {
            proof {
                lemma_first_step(v, id@, i as int);
            }
            return Some(i);
        }
        i = i + 1;
    }
    proof {
        lemma_first_step(v, id@, i as int);
    }
    None
}

/// What running an automation step does.
pub enum StepRequest {
    /// Close the windows whose title contains this text.
    CloseWindow(String),
    /// Run the visual-target script with these options.
    Script(VisualScriptOptions),
}

pub enum StepRequestView {
    CloseWindow(Seq<char>),
    Script(OptionsView),
}

impl View for StepRequest {
    type V = StepRequestView;

    open spec fn view(&self) -> StepRequestView {
        match self {
            StepRequest::CloseWindow(t) => StepRequestView::CloseWindow(t@),
            StepRequest::Script(o) => StepRequestView::Script(o@),
        }
    }
}

/// The script options of a step.
pub open spec fn step_options(s: StepView, dry_run: bool, input: Option<Seq<char>>) -> OptionsView {
    OptionsView {
        action: s.action,
        match_type: match_kind(s.match_type),
        match_value: s.match_value,
        window_title: s.window_title,
        tolerance: at_least_one(s.color_tolerance),
        click: s.click,
        dry_run,
        offset_x: s.offset_x,
        offset_y: s.offset_y,
        input_text: input,
    }
}

/// "找不到步骤 {id}".
pub open spec fn missing_step_message(id: Seq<char>) -> Seq<char> {
    "找不到步骤 "@ + id
}

/// What running the step with this id from the steps in effect does.
pub open spec fn step_request_spec(f: RulesFileView, step_id: Seq<char>, dry_run: bool, install_base: Seq<char>) -> Result<StepRequestView, Seq<char>> {
    let steps = effective_steps_spec(f);
    match first_step(steps, step_id) {
        None => Err(missing_step_message(step_id)),
        Some(k) => {
            let s = steps[k];
            if s.action == "closeWindow"@ {
                Ok(StepRequestView::CloseWindow(s.window_title))
            } else {
                match input_text_spec(s.action, s.input_mode, s.input_text, install_base) {
                    Err(e) => Err(e),
                    Ok(input) => Ok(StepRequestView::Script(step_options(s, dry_run, input))),
                }
            }
        },
    }
}

fn prefixed_message(prefix: &str, id: &str) -> (res: String)
    ensures
        res@ == prefix@ + id@,
{
    let mut v = chars_of(prefix);
    push_str(&mut v, id);
    string_from_chars(v.as_slice())
}

/// Decides what running an automation step does.
pub fn automation_step_request(file: &VisualRulesFile, step_id: &str, dry_run: bool, install_base: &str) -> (res:
    Result<StepRequest, String>)
    ensures
        match res {
            Ok(r) => step_request_spec(file@, step_id@, dry_run, install_base@) == Ok::<
                StepRequestView,
                Seq<char>,
            >(r@),
            Err(e) => step_request_spec(file@, step_id@, dry_run, install_base@) == Err::<
                StepRequestView,
                Seq<char>,
            >(e@),
        },
{
    let steps = effective_steps(file);
    let k = match find_step(steps.as_slice(), step_id) {
        None => return Err(prefixed_message("找不到步骤 ", step_id)),
        Some(k) => k,
    };
    let s = &steps[k];
    assert(steps_view(steps@)[k as int] == s@);
    if crate::text::str_eq(s.action.as_str(), "closeWindow") {
        return Ok(StepRequest::CloseWindow(s.window_title.clone()));
    }
    let mt = normalize_match_type(s.match_type.as_str());
    let input = match resolve_input_text(
        s.action.as_str(),
        s.input_mode.as_str(),
        s.input_text.as_str(),
        install_base,
    ) {
        Ok(i) => i,
        Err(e) => return Err(e),
    };
    let tol = if s.color_tolerance < 1 {
        1
    } else {
        s.color_tolerance
    };
    Ok(
        StepRequest::Script(
            visual_script_opts(
                s.action.as_str(),
                mt,
                s.match_value.as_str(),
                s.window_title.as_str(),
                tol,
                s.click,
                dry_run,
                s.offset_x,
                s.offset_y,
                input,
            ),
        ),
    )
}

pub open spec fn opt_or(o: Option<Seq<char>>, d: Seq<char>) -> Seq<char> {
    match o {
        Some(v) => v,
        None => d,
    }
}

pub open spec fn opt_i32_or_zero(o: Option<i32>) -> i32 {
    match o {
        Some(v) => v,
        None => 0,
    }
}

/// The script options of a one-off visual target.
pub open spec fn target_request_spec(
    action: Option<Seq<char>>,
    match_type: Seq<char>,
    match_value: Seq<char>,
    window_title: Seq<char>,
    color_tolerance: u32,
    click: bool,
    dry_run: bool,
    offset_x: Option<i32>,
    offset_y: Option<i32>,
    input_mode: Option<Seq<char>>,
    input_text: Option<Seq<char>>,
    install_base: Seq<char>,
) -> Result<OptionsView, Seq<char>> {
    if match_type != "point"@ && trim(match_value).len() == 0 {
        Err("请填写匹配文字或颜色"@)
    } else {
        let a = opt_or(action, "click"@);
        match input_text_spec(
            a,
            opt_or(input_mode, "installBase"@),
            opt_or(input_text, Seq::empty()),
            install_base,
        ) {
            Err(e) => Err(e),
            Ok(input) => Ok(
                OptionsView {
                    action: a,
                    match_type: match_kind(match_type),
                    match_value: trim(match_value),
                    window_title,
                    tolerance: at_least_one(color_tolerance),
                    click,
                    dry_run,
                    offset_x: opt_i32_or_zero(offset_x),
                    offset_y: opt_i32_or_zero(offset_y),
                    input_text: input,
                },
            ),
        }
    }
}

/// Checks a one-off visual target and builds its script options.
pub fn visual_target_request(
    action: Option<String>,
    match_type: &str,
    match_value: &str,
    window_title: &str,
    color_tolerance: u32,
    click: bool,
    dry_run: bool,
    offset_x: Option<i32>,
    offset_y: Option<i32>,
    input_mode: Option<String>,
    input_text: Option<String>,
    install_base: &str,
) -> (res: Result<VisualScriptOptions, String>)
    ensures
        match res {
            Ok(o) => target_request_spec(
                opt_string_view(action),
                match_type@,
                match_value@,
                window_title@,
                color_tolerance,
                click,
                dry_run,
                offset_x,
                offset_y,
                opt_string_view(input_mode),
                opt_string_view(input_text),
                install_base@,
            ) == Ok::<OptionsView, Seq<char>>(o@),
            Err(e) => target_request_spec(
                opt_string_view(action),
                match_type@,
                match_value@,
                window_title@,
                color_tolerance,
                click,
                dry_run,
                offset_x,
                offset_y,
                opt_string_view(input_mode),
                opt_string_view(input_text),
                install_base@,
            ) == Err::<OptionsView, Seq<char>>(e@),
        },
{
    if !crate::text::str_eq(match_type, "point") && crate::text::is_blank(match_value) {
        return Err(String::from_str("请填写匹配文字或颜色"));
    }
    let mt = normalize_match_type(match_type);
    let a = match action {
        Some(a) => a,
        None => String::from_str("click"),
    };
    let mode = match input_mode {
        Some(m) => m,
        None => String::from_str("installBase"),
    };
    let text = match input_text {
        Some(t) => t,
        None => String::new(),
    };
    let input = match resolve_input_text(a.as_str(), mode.as_str(), text.as_str(), install_base) {
        Ok(i) => i,
        Err(e) => return Err(e),
    };
    let mv = crate::text::trim_string(match_value);
    let tol = if color_tolerance < 1 {
        1
    } else {
        color_tolerance
    };
    let ox = match offset_x {
        Some(v) => v,
        None => 0,
    };
    let oy = match offset_y {
        Some(v) => v,
        None => 0,
    };
    Ok(visual_script_opts(a.as_str(), mt, mv.as_str(), window_title, tol, click, dry_run, ox, oy, input))
}

/// The script options of a stored rule, run as a click step.
pub open spec fn rule_options(r: RuleView, dry_run: bool) -> OptionsView {
    OptionsView {
        action: "click"@,
        match_type: match_kind(r.match_type),
        match_value: r.match_value,
        window_title: r.window_title,
        tolerance: at_least_one(r.color_tolerance),
        click: r.click,
        dry_run,
        offset_x: 0,
        offset_y: 0,
        input_text: None,
    }
}

fn rule_script_options(r: &VisualRule, dry_run: bool) -> (res: VisualScriptOptions)
    ensures
        res@ == rule_options(r@, dry_run),
{
    let mt = normalize_match_type(r.match_type.as_str());
    let tol = if r.color_tolerance < 1 {
        1
    } else {
        r.color_tolerance
    };
    visual_script_opts(
        "click",
        mt,
        r.match_value.as_str(),
        r.window_title.as_str(),
        tol,
        r.click,
        dry_run,
        0,
        0,
        None,
    )
}

/// Builds the script options of the stored rule with this id.
pub fn visual_rule_request(rules: &[VisualRule], rule_id: &str, dry_run: bool) -> (res: Result<
    VisualScriptOptions,
    String,
>)
    ensures
        match first_rule(rules_view(rules@), rule_id@) {
            Some(k) => res matches Ok(o) && o@ == rule_options(rules_view(rules@)[k], dry_run),
            None => res matches Err(e) && e@ == "找不到规则 "@ + rule_id@,
        },
{
    match find_rule(rules, rule_id) {
        Some(k) => Ok(rule_script_options(&rules[k], dry_run)),
        None => Err(prefixed_message("找不到规则 ", rule_id)),
    }
}

/// The position of the first chain with this id.
pub open spec fn first_chain(cs: Seq<ChainView>, id: Seq<char>) -> Option<int>
    decreases cs.len(),
{
    if cs.len() == 0 {
        None
    } else if cs[0].id == id {
        Some(0)
    } else {
        match first_chain(cs.drop_first(), id) {
            Some(k) => Some(k + 1),
            None => None,
        }
    }
}

proof fn lemma_first_chain(cs: Seq<ChainView>, id: Seq<char>, i: int)
    requires
        0 <= i <= cs.len(),
        forall|j: int| 0 <= j < i ==> cs[j].id != id,
    ensures
        i < cs.len() && cs[i].id == id ==> first_chain(cs, id) == Some(i),
        i == cs.len() ==> first_chain(cs, id).is_none(),
    decreases i,
{
    if i > 0 {
        assert forall|j: int| 0 <= j < i - 1 implies cs.drop_first()[j].id != id by {
            assert(cs.drop_first()[j] == cs[j + 1]);
        }
        lemma_first_chain(cs.drop_first(), id, i - 1);
    }
}

/// The steps of the chain with this id.
pub fn visual_chain_steps(file: &VisualRulesFile, chain_id: &str) -> (res: Result<Vec<ChainStep>, String>)
    ensures
        match first_chain(file@.chains, chain_id@) {
            Some(k) => res matches Ok(steps) && chain_steps_view(steps@) == file@.chains[k].steps,
            None => res matches Err(e) && e@ == "找不到规则链 "@ + chain_id@,
        },
{
    let ghost v = file@.chains;
    let mut i: usize = 0;
    while i < file.chains.len()
        invariant
            i <= file.chains@.len(),
            v == file@.chains,
            forall|j: int| 0 <= j < i ==> v[j].id != chain_id@,
        decreases file.chains@.len() - i,
    {
        if crate::text::str_eq(file.chains[i].id.as_str(), chain_id) {
            proof {
                lemma_first_chain(v, chain_id@, i as int);
            }
            let steps = &file.chains[i].steps;
            let mut out: Vec<ChainStep> = Vec::new();
            let mut j: usize = 0;
            while j < steps.len()
                invariant
                    j <= steps@.len(),
                    out@.len() == j,
                    forall|m: int| 0 <= m < j ==> (#[trigger] out@[m])@ == steps@[m]@,
                decreases steps@.len() - j,
            {
                out.push(steps[j].duplicate());
                j = j + 1;
            }
            assert(chain_steps_view(out@) =~= chain_steps_view(steps@));
            return Ok(out);
        }
        i = i + 1;
    }
    proof {
        lemma_first_chain(v, chain_id@, i as int);
    }
    Err(prefixed_message("找不到规则链 ", chain_id))
}

/// "步骤 {n} 引用的规则 {rule} 不存在".
pub open spec fn missing_chain_rule_message(n: nat, rule_id: Seq<char>) -> Seq<char> {
    "步骤 "@ + crate::text::decimal(n) + " 引用的规则 "@ + rule_id + " 不存在"@
}

/// The script options of the `index`-th step (from 0) of a chain.
pub fn chain_step_options(rules: &[VisualRule], step: &ChainStep, index: usize) -> (res: Result<
    VisualScriptOptions,
    String,
>)
    ensures
        match first_rule(rules_view(rules@), step@.rule_id) {
            Some(k) => res matches Ok(o) && o@ == rule_options(rules_view(rules@)[k], false),
            None => res matches Err(e) && e@ == missing_chain_rule_message(
                (index + 1) as nat,
                step@.rule_id,
            ),
        },
{
    match find_rule(rules, step.rule_id.as_str()) {
        Some(k) => Ok(rule_script_options(&rules[k], false)),
        None => {
            let mut v = chars_of("步骤 ");
            push_decimal(&mut v, index as u128 + 1);
            push_str(&mut v, " 引用的规则 ");
            push_str(&mut v, step.rule_id.as_str());
            push_str(&mut v, " 不存在");
            Err(string_from_chars(v.as_slice()))
        },
    }
}

/// How long to wait after the `index`-th of `count` chain steps: its delay,
/// except after the last step.
pub fn chain_delay_after(delay_ms: u64, index: usize, count: usize) -> (res: u64)
    ensures
        res == if delay_ms > 0 && index + 1 < count {
            delay_ms
        } else {
            0
        },
{
    if delay_ms > 0 && index < count && index + 1 < count {
        delay_ms
    } else {
        0
    }
}

// ---------------------------------------------------------------------------
// Script command lines
// ---------------------------------------------------------------------------
/// The PowerShell arguments that run the visual-target script.
pub open spec fn visual_script_args_spec(ps1: Seq<char>, o: OptionsView) -> Seq<Seq<char>> {
    let base = seq![
        "-ExecutionPolicy"@,
        "Bypass"@,
        "-NoProfile"@,
        "-File"@,
        ps1,
        "--match-type"@,
        o.match_type,
        "--match-value"@,
        o.match_value,
        "--tolerance"@,
        crate::text::decimal(o.tolerance as nat),
        "--offset-x"@,
        signed_decimal(o.offset_x as int),
        "--offset-y"@,
        signed_decimal(o.offset_y as int),
    ];
    let with_title = if trim(o.window_title).len() > 0 {
        base + seq!["--window-title"@, trim(o.window_title)]
    } else {
        base
    };
    if o.dry_run {
        with_title.push("--dry-run"@)
    } else {
        with_title
    }
}

fn push_string(v: &mut Vec<String>, s: &str)
    ensures
        strings_view(final(v)@) == strings_view(old(v)@).push(s@),
{
    let ghost before = v@;
    v.push(String::from_str(s));
    assert(strings_view(v@) =~= strings_view(before).push(s@));
}

pub fn visual_script_args(ps1: &str, opts: &VisualScriptOptions) -> (res: Vec<String>)
    ensures
        strings_view(res@) == visual_script_args_spec(ps1@, opts@),
{
    let mut args: Vec<String> = Vec::new();
    push_string(&mut args, "-ExecutionPolicy");
    push_string(&mut args, "Bypass");
    push_string(&mut args, "-NoProfile");
    push_string(&mut args, "-File");
    push_string(&mut args, ps1);
    push_string(&mut args, "--match-type");
    push_string(&mut args, opts.match_type.as_str());
    push_string(&mut args, "--match-value");
    push_string(&mut args, opts.match_value.as_str());
    push_string(&mut args, "--tolerance");
    let t = crate::text::decimal_string(opts.tolerance as u128);
    push_string(&mut args, t.as_str());
    push_string(&mut args, "--offset-x");
    let ox = crate::text::signed_decimal_string(opts.offset_x as i64);
    push_string(&mut args, ox.as_str());
    push_string(&mut args, "--offset-y");
    let oy = crate::text::signed_decimal_string(opts.offset_y as i64);
    push_string(&mut args, oy.as_str());
    if !crate::text::is_blank(opts.window_title.as_str()) {
        push_string(&mut args, "--window-title");
        let wt = crate::text::trim_string(opts.window_title.as_str());
        push_string(&mut args, wt.as_str());
    }
    if opts.dry_run {
        push_string(&mut args, "--dry-run");
    }
    assert(strings_view(args@) =~= visual_script_args_spec(ps1@, opts@));
    args
}

/// The PowerShell arguments that move, click or type at a screen point.
pub open spec fn physical_input_args_spec(
    ps1: Seq<char>,
    x: i32,
    y: i32,
    click: bool,
    type_text: Option<Seq<char>>,
    window_title: Option<Seq<char>>,
) -> Seq<Seq<char>> {
    let base = seq![
        "-ExecutionPolicy"@,
        "Bypass"@,
        "-NoProfile"@,
        "-File"@,
        ps1,
        "--physical-x"@,
        signed_decimal(x as int),
        "--physical-y"@,
        signed_decimal(y as int),
    ];
    let a = if click {
        base.push("--click"@)
    } else {
        base
    };
    let b = match type_text {
        Some(t) => a + seq!["--type-text"@, t],
        None => a,
    };
    match window_title {
        Some(t) => if trim(t).len() > 0 {
            b + seq!["--window-title"@, trim(t)]
        } else {
            b
        },
        None => b,
    }
}

pub fn physical_input_args(
    ps1: &str,
    x: i32,
    y: i32,
    click: bool,
    type_text: Option<&str>,
    window_title: Option<&str>,
) -> (res: Vec<String>)
    ensures
        strings_view(res@) == physical_input_args_spec(
            ps1@,
            x,
            y,
            click,
            match type_text {
                Some(t) => Some(t@),
                None => None,
            },
            match window_title {
                Some(t) => Some(t@),
                None => None,
            },
        ),
{
    let mut args: Vec<String> = Vec::new();
    push_string(&mut args, "-ExecutionPolicy");
    push_string(&mut args, "Bypass");
    push_string(&mut args, "-NoProfile");
    push_string(&mut args, "-File");
    push_string(&mut args, ps1);
    push_string(&mut args, "--physical-x");
    let xs = crate::text::signed_decimal_string(x as i64);
    push_string(&mut args, xs.as_str());
    push_string(&mut args, "--physical-y");
    let ys = crate::text::signed_decimal_string(y as i64);
    push_string(&mut args, ys.as_str());
    if click {
        push_string(&mut args, "--click");
    }
    match type_text {
        Some(t) => {
            push_string(&mut args, "--type-text");
            push_string(&mut args, t);
        },
        None => {},
    }
    match window_title {
        Some(t) => {
            if !crate::text::is_blank(t) {
                push_string(&mut args, "--window-title");
                let tt = crate::text::trim_string(t);
                push_string(&mut args, tt.as_str());
            }
        },
        None => {},
    }
    assert(strings_view(args@) =~= physical_input_args_spec(
        ps1@,
        x,
        y,
        click,
        match type_text {
            Some(t) => Some(t@),
            None => None,
        },
        match window_title {
            Some(t) => Some(t@),
            None => None,
        },
    ));
    args
}

// ---------------------------------------------------------------------------
// Results
// ---------------------------------------------------------------------------
/// What locating (and acting on) a visual target gave.
pub struct VisualTargetResult {
    pub success: bool,
    pub raw_screen_x: Option<i32>,
    pub raw_screen_y: Option<i32>,
    pub offset_x: Option<i32>,
    pub offset_y: Option<i32>,
    pub screen_x: Option<i32>,
    pub screen_y: Option<i32>,
    pub window_left: Option<i32>,
    pub window_top: Option<i32>,
    pub window_width: Option<i32>,
    pub window_height: Option<i32>,
    pub window_title: Option<String>,
    pub detail: Option<String>,
    pub preview_image: Option<String>,
    pub window_handle: Option<i64>,
    pub message: String,
}

/// The report the visual-target script prints (`RESULT_JSON:` line).
pub struct ScriptReport {
    pub success: bool,
    pub raw_screen_x: Option<i32>,
    pub raw_screen_y: Option<i32>,
    pub offset_x: Option<i32>,
    pub offset_y: Option<i32>,
    pub screen_x: Option<i32>,
    pub screen_y: Option<i32>,
    pub window_left: Option<i32>,
    pub window_top: Option<i32>,
    pub window_width: Option<i32>,
    pub window_height: Option<i32>,
    pub window_title: Option<String>,
    pub detail: Option<String>,
    pub preview_image: Option<String>,
    pub window_handle: Option<i64>,
    pub message: Option<String>,
}

/// No coordinate, window box, detail, preview or handle is reported.
pub open spec fn nothing_located(r: VisualTargetResult) -> bool {
    &&& r.raw_screen_x.is_none() && r.raw_screen_y.is_none()
    &&& r.offset_x.is_none() && r.offset_y.is_none()
    &&& r.screen_x.is_none() && r.screen_y.is_none()
    &&& r.window_left.is_none() && r.window_top.is_none()
    &&& r.window_width.is_none() && r.window_height.is_none()
    &&& r.detail.is_none() && r.preview_image.is_none() && r.window_handle.is_none()
}

/// A result that only carries a message.
pub fn message_result(success: bool, window_title: Option<String>, message: String) -> (res:
    VisualTargetResult)
    ensures
        res.success == success,
        res.window_title == window_title,
        res.message == message,
        nothing_located(res),
{
    VisualTargetResult {
        success,
        raw_screen_x: None,
        raw_screen_y: None,
        offset_x: None,
        offset_y: None,
        screen_x: None,
        screen_y: None,
        window_left: None,
        window_top: None,
        window_width: None,
        window_height: None,
        window_title,
        detail: None,
        preview_image: None,
        window_handle: None,
        message,
    }
}

/// The script's English messages in the interface language; other messages
/// are kept, and a missing one becomes `完成` or `失败`.
pub open spec fn localized_message(message: Option<Seq<char>>, success: bool) -> Seq<char> {
    match message {
        None => if success {
            "完成"@
        } else {
            "失败"@
        },
        Some(m) => if m == "Preview moved mouse."@ {
            "已预览坐标并移动鼠标"@
        } else if m == "Preview move may have failed."@ {
            "已找到坐标，但移动鼠标可能失败"@
        } else if m == "Preview coordinates only."@ {
            "已预览坐标"@
        } else if m == "Moved and clicked."@ {
            "已移动并点击"@
        } else if m == "Moved; click may have failed."@ {
            "已移动鼠标，点击可能失败"@
        } else if m == "Mouse moved only."@ {
            "已移动鼠标"@
        } else if m == "Target window not found."@ {
            "未找到目标窗口"@
        } else if m == "Target not found."@ {
            "未找到匹配目标"@
        } else {
            m
        },
    }
}

pub fn localize_visual_message(message: Option<String>, success: bool) -> (res: String)
    ensures
        res@ == localized_message(opt_string_view(message), success),
{
    let m = match message {
        None => {
            return if success {
                String::from_str("完成")
            } else {
                String::from_str("失败")
            };
        },
        Some(m) => m,
    };
    let t = m.as_str();
    if crate::text::str_eq(t, "Preview moved mouse.") {
        String::from_str("已预览坐标并移动鼠标")
    } else if crate::text::str_eq(t, "Preview move may have failed.") {
        String::from_str("已找到坐标，但移动鼠标可能失败")
    } else if crate::text::str_eq(t, "Preview coordinates only.") {
        String::from_str("已预览坐标")
    } else if crate::text::str_eq(t, "Moved and clicked.") {
        String::from_str("已移动并点击")
    } else if crate::text::str_eq(t, "Moved; click may have failed.") {
        String::from_str("已移动鼠标，点击可能失败")
    } else if crate::text::str_eq(t, "Mouse moved only.") {
        String::from_str("已移动鼠标")
    } else if crate::text::str_eq(t, "Target window not found.") {
        String::from_str("未找到目标窗口")
    } else if crate::text::str_eq(t, "Target not found.") {
        String::from_str("未找到匹配目标")
    } else {
        m
    }
}

/// The result of a script report: its fields, with the message localised.
pub fn visual_result_from_report(raw: ScriptReport) -> (res: VisualTargetResult)
    ensures
        res.success == raw.success,
        res.raw_screen_x == raw.raw_screen_x,
        res.raw_screen_y == raw.raw_screen_y,
        res.offset_x == raw.offset_x,
        res.offset_y == raw.offset_y,
        res.screen_x == raw.screen_x,
        res.screen_y == raw.screen_y,
        res.window_left == raw.window_left,
        res.window_top == raw.window_top,
        res.window_width == raw.window_width,
        res.window_height == raw.window_height,
        res.window_title == raw.window_title,
        res.detail == raw.detail,
        res.preview_image == raw.preview_image,
        res.window_handle == raw.window_handle,
        res.message@ == localized_message(opt_string_view(raw.message), raw.success),
{
    let message = localize_visual_message(raw.message, raw.success);
    VisualTargetResult {
        success: raw.success,
        raw_screen_x: raw.raw_screen_x,
        raw_screen_y: raw.raw_screen_y,
        offset_x: raw.offset_x,
        offset_y: raw.offset_y,
        screen_x: raw.screen_x,
        screen_y: raw.screen_y,
        window_left: raw.window_left,
        window_top: raw.window_top,
        window_width: raw.window_width,
        window_height: raw.window_height,
        window_title: raw.window_title,
        detail: raw.detail,
        preview_image: raw.preview_image,
        window_handle: raw.window_handle,
        message,
    }
}

// ---------------------------------------------------------------------------
// Script output
// ---------------------------------------------------------------------------
/// A line without the carriage return of a `\r\n` ending.
pub open spec fn strip_cr(l: Seq<char>) -> Seq<char> {
    if l.len() > 0 && l.last() == '\r' {
        l.drop_last()
    } else {
        l
    }
}

/// `str::lines`: lines end at `\n` or `\r\n`, and a final line ending is
/// optional.
pub open spec fn text_lines(s: Seq<char>) -> Seq<Seq<char>> {
    let pieces = crate::text::split_on(s, crate::text::CharSet::Newline);
    let ended = pieces.drop_last().map_values(|l: Seq<char>| strip_cr(l));
    if pieces.last().len() > 0 {
        ended.push(pieces.last())
    } else {
        ended
    }
}

fn text_lines_exec(s: &[char]) -> (res: Vec<Vec<char>>)
    ensures
        crate::text::views(res@) == text_lines(s@),
{
    let pieces = crate::text::split_exec(s, crate::text::CharSet::Newline);
    let ghost pv = crate::text::views(pieces@);
    let n = pieces.len();
    let mut out: Vec<Vec<char>> = Vec::new();
    let mut i: usize = 0;
    while i + 1 < n
        invariant
            n == pieces@.len(),
            n >= 1,
            i + 1 <= n,
            pv == crate::text::views(pieces@),
            crate::text::views(out@) == pv.take(i as int).map_values(|l: Seq<char>| strip_cr(l)),
        decreases n - i,
    {
        let p = &pieces[i];
        let line = if p.len() > 0 && p[p.len() - 1] == '\r' {
            crate::text::slice_chars(p.as_slice(), 0, p.len() - 1)
        } else {
            crate::text::slice_chars(p.as_slice(), 0, p.len())
        };
        assert(p@.subrange(0, p@.len() as int) =~= p@);
        assert(line@ == strip_cr(pv[i as int]));
        let ghost before = out@;
        out.push(line);
        assert(crate::text::views(out@) =~= crate::text::views(before).push(line@));
        assert(pv.take(i + 1).map_values(|l: Seq<char>| strip_cr(l)) =~= pv.take(
            i as int,
        ).map_values(|l: Seq<char>| strip_cr(l)).push(strip_cr(pv[i as int])));
        i = i + 1;
    }
    assert(pv.take(i as int) =~= pv.drop_last());
    let last = &pieces[n - 1];
    if last.len() > 0 {
        let l = crate::text::slice_chars(last.as_slice(), 0, last.len());
        assert(last@.subrange(0, last@.len() as int) =~= last@);
        let ghost before = out@;
        out.push(l);
        assert(crate::text::views(out@) =~= crate::text::views(before).push(l@));
    }
    out
}

/// The rest of the first line that starts with `prefix`.
pub open spec fn first_prefixed_line(lines: Seq<Seq<char>>, prefix: Seq<char>) -> Option<Seq<char>>
    decreases lines.len(),
{
    if lines.len() == 0 {
        None
    } else if prefix.is_prefix_of(lines[0]) {
        Some(lines[0].skip(prefix.len() as int))
    } else {
        first_prefixed_line(lines.drop_first(), prefix)
    }
}

/// The JSON report in the visual-target script's output, if it printed one.
pub fn script_result_json(stdout: &str) -> (res: Option<String>)
    ensures
        opt_string_view(res) == first_prefixed_line(text_lines(stdout@), "RESULT_JSON:"@),
{
    let s = chars_of(stdout);
    let lines = text_lines_exec(s.as_slice());
    let prefix = chars_of("RESULT_JSON:");
    let ghost lv = crate::text::views(lines@);
    assert(lv.skip(0) =~= lv);
    let mut i: usize = 0;
    while i < lines.len()
        invariant
            i <= lines@.len(),
            lv == crate::text::views(lines@),
            lv == text_lines(stdout@),
            prefix@ == "RESULT_JSON:"@,
            first_prefixed_line(lv, prefix@) == first_prefixed_line(lv.skip(i as int), prefix@),
        decreases lines@.len() - i,
    {
        assert(lv.skip(i as int)[0] == lines@[i as int]@);
        assert(lv.skip(i as int).drop_first() =~= lv.skip(i + 1));
        if crate::text::starts_with(lines[i].as_slice(), prefix.as_slice()) {
            let rest = crate::text::slice_chars(lines[i].as_slice(), prefix.len(), lines[i].len());
            assert(rest@ =~= lines@[i as int]@.skip(prefix@.len() as int));
            assert(first_prefixed_line(lv.skip(i as int), prefix@) == Some(
                lines@[i as int]@.skip(prefix@.len() as int),
            ));
            return Some(string_from_chars(rest.as_slice()));
        }
        i = i + 1;
    }
    assert(lv.skip(i as int).len() == 0);
    None
}

/// The first line (without a `RESULT_JSON:` prefix) that holds a JSON object.
pub open spec fn first_json_object_line(lines: Seq<Seq<char>>) -> Option<Seq<char>>
    decreases lines.len(),
{
    if lines.len() == 0 {
        None
    } else {
        let l = lines[0];
        let json = if "RESULT_JSON:"@.is_prefix_of(l) {
            l.skip(12)
        } else {
            l
        };
        let t = crate::text::trim_start_by(json, crate::text::CharSet::WhiteSpace);
        if t.len() > 0 && t[0] == '{' {
            Some(json)
        } else {
            first_json_object_line(lines.drop_first())
        }
    }
}

/// The error of a physical-input script that exited unsuccessfully.
pub fn physical_script_error(code: Option<i32>, stdout: &str) -> (res: String)
    ensures
        res@ == "物理输入脚本退出码 "@ + signed_decimal(
            match code {
                Some(c) => c as int,
                None => -1,
            },
        ) + ": "@ + trim(stdout@),
{
    let mut v = chars_of("物理输入脚本退出码 ");
    let c: i64 = match code {
        Some(c) => c as i64,
        None => -1,
    };
    push_signed_decimal(&mut v, c);
    push_str(&mut v, ": ");
    let t = crate::text::trimmed(stdout);
    push_all(&mut v, t.as_slice());
    string_from_chars(v.as_slice())
}

/// The JSON report in the physical-input script's output, if any.
pub fn physical_input_json(stdout: &str) -> (res: Option<String>)
    ensures
        opt_string_view(res) == first_json_object_line(text_lines(stdout@)),
{
    let s = chars_of(stdout);
    let lines = text_lines_exec(s.as_slice());
    let prefix = chars_of("RESULT_JSON:");
    proof {
        reveal_strlit("RESULT_JSON:");
    }
    let ghost lv = crate::text::views(lines@);
    assert(lv.skip(0) =~= lv);
    let mut i: usize = 0;
    while i < lines.len()
        invariant
            i <= lines@.len(),
            lv == crate::text::views(lines@),
            lv == text_lines(stdout@),
            prefix@ == "RESULT_JSON:"@,
            prefix@.len() == 12,
            first_json_object_line(lv) == first_json_object_line(lv.skip(i as int)),
        decreases lines@.len() - i,
    {
        assert(lv.skip(i as int)[0] == lines@[i as int]@);
        assert(lv.skip(i as int).drop_first() =~= lv.skip(i + 1));
        let l = &lines[i];
        let ghost lg = l@;
        let ghost expected = if "RESULT_JSON:"@.is_prefix_of(lg) {
            lg.skip(12)
        } else {
            lg
        };
        let json = if crate::text::starts_with(l.as_slice(), prefix.as_slice()) {
            assert(lg.subrange(12, lg.len() as int) =~= lg.skip(12));
            crate::text::slice_chars(l.as_slice(), 12, l.len())
        } else {
            assert(lg.subrange(0, lg.len() as int) =~= lg);
            crate::text::slice_chars(l.as_slice(), 0, l.len())
        };
        assert(json@ == expected);
        let k = crate::text::trim_start_index(json.as_slice(), crate::text::CharSet::WhiteSpace);
        let ghost t = crate::text::trim_start_by(json@, crate::text::CharSet::WhiteSpace);
        assert(t.len() == json@.len() - k);
        if k < json.len() && json[k] == '{' {
            assert(t[0] == json@[k as int]);
            assert(first_json_object_line(lv.skip(i as int)) == Some(expected));
            return Some(string_from_chars(json.as_slice()));
        }
        assert(!(t.len() > 0 && t[0] == '{'));
        i = i + 1;
    }
    assert(lv.skip(i as int).len() == 0);
    None
}

/// The result when the script printed no report: its trimmed output on
/// success, or an error with its exit code and output.
pub open spec fn script_outcome_spec(
    parsed: Option<VisualTargetResult>,
    stdout: Seq<char>,
    stderr: Seq<char>,
    success: bool,
    code: Option<i32>,
) -> Result<Option<VisualTargetResult>, Seq<char>> {
    match parsed {
        Some(r) => Ok(Some(r)),
        None => if success {
            Ok(None)
        } else {
            Err(
                "视觉定位脚本退出码 "@ + signed_decimal(
                    match code {
                        Some(c) => c as int,
                        None => -1,
                    },
                ) + ": "@ + if trim(stdout).len() == 0 {
                    trim(stderr)
                } else {
                    trim(stdout)
                },
            )
        },
    }
}

/// The result of a visual-target run from its parsed report, or from its
/// exit status and output when it printed none.
pub fn visual_script_outcome(
    parsed: Option<VisualTargetResult>,
    stdout: &str,
    stderr: &str,
    success: bool,
    code: Option<i32>,
) -> (res: Result<VisualTargetResult, String>)
    ensures
        match script_outcome_spec(parsed, stdout@, stderr@, success, code) {
            Ok(Some(r)) => res == Ok::<VisualTargetResult, String>(r),
            Ok(None) => res matches Ok(r) && r.success && r.message@ == trim(stdout@)
                && nothing_located(r) && r.window_title.is_none(),
            Err(e) => res matches Err(m) && m@ == e,
        },
{
    match parsed {
        Some(r) => Ok(r),
        None => {
            if success {
                Ok(message_result(true, None, crate::text::trim_string(stdout)))
            } else {
                let mut v = chars_of("视觉定位脚本退出码 ");
                let c: i64 = match code {
                    Some(c) => c as i64,
                    None => -1,
                };
                push_signed_decimal(&mut v, c);
                push_str(&mut v, ": ");
                if crate::text::is_blank(stdout) {
                    let t = crate::text::trimmed(stderr);
                    push_all(&mut v, t.as_slice());
                } else {
                    let t = crate::text::trimmed(stdout);
                    push_all(&mut v, t.as_slice());
                }
                Err(string_from_chars(v.as_slice()))
            }
        },
    }
}

// ---------------------------------------------------------------------------
// Acting on a located target
// ---------------------------------------------------------------------------
/// The input to perform once a target is located.
pub enum InputRequest {
    /// Nothing to do: the target was not located.
    Skip,
    /// A dry run: only describe the preview.
    Preview,
    /// Move to the point, press (click or focus for typing) when asked, and
    /// type the text when there is one.
    Physical { x: i32, y: i32, press: bool, type_text: Option<String>, window_title: Option<String> },
}

/// The text an `inputText` action types, when it is not blank.
pub open spec fn typed_text(action: Seq<char>, input_text: Option<Seq<char>>) -> Option<Seq<char>> {
    match input_text {
        Some(t) => if trim(t).len() > 0 && action == "inputText"@ {
            Some(trim(t))
        } else {
            None
        },
        None => None,
    }
}

/// Decides what input follows a located target.
pub fn visual_input_request(
    result: &VisualTargetResult,
    action: &str,
    click: bool,
    input_text: Option<&str>,
    dry_run: bool,
) -> (res: InputRequest)
    ensures
        !result.success || result.screen_x.is_none() || result.screen_y.is_none() ==> res
            is Skip,
        result.success && result.screen_x.is_some() && result.screen_y.is_some() && dry_run ==> res
            is Preview,
        result.success && result.screen_x.is_some() && result.screen_y.is_some() && !dry_run ==> ({
            let t = typed_text(
                action@,
                match input_text {
                    Some(s) => Some(s@),
                    None => None,
                },
            );
            res matches InputRequest::Physical { x, y, press, type_text, window_title } && x
                == result.screen_x->0 && y == result.screen_y->0 && press == (click || t.is_some())
                && opt_string_view(type_text) == t && window_title == result.window_title
        }),
{
    if !result.success {
        return InputRequest::Skip;
    }
    let (x, y) = match (result.screen_x, result.screen_y) {
        (Some(x), Some(y)) => (x, y),
        _ => return InputRequest::Skip,
    };
    if dry_run {
        return InputRequest::Preview;
    }
    let type_text = match input_text {
        Some(t) => {
            if !crate::text::is_blank(t) && crate::text::str_eq(action, "inputText") {
                Some(crate::text::trim_string(t))
            } else {
                None
            }
        },
        None => None,
    };
    let press = click || type_text.is_some();
    let window_title = match &result.window_title {
        Some(t) => Some(t.clone()),
        None => None,
    };
    InputRequest::Physical { x, y, press, type_text, window_title }
}

/// The message of a dry run.
pub fn apply_preview(result: &mut VisualTargetResult)
    ensures
        final(result).message@ == if old(result).preview_image.is_some() {
            "已生成截图预览，请看红色标记"@
        } else {
            "已找到坐标，但没有生成截图预览"@
        },
        *final(result) == (VisualTargetResult { message: final(result).message, ..*old(result) }),
{
    result.message = if result.preview_image.is_some() {
        String::from_str("已生成截图预览，请看红色标记")
    } else {
        String::from_str("已找到坐标，但没有生成截图预览")
    };
}

/// What the physical-input script reported.
pub struct PhysicalInputResult {
    pub moved: bool,
    pub clicked: bool,
    pub typed: bool,
    pub cursor_x: Option<i32>,
    pub cursor_y: Option<i32>,
}

/// `(x, y)` as the messages write a point.
pub open spec fn point_text(x: int, y: int) -> Seq<char> {
    "("@ + signed_decimal(x) + ", "@ + signed_decimal(y) + ")"@
}

fn push_point(v: &mut Vec<char>, x: i32, y: i32)
    ensures
        final(v)@ == old(v)@ + point_text(x as int, y as int),
{
    push_str(v, "(");
    push_signed_decimal(v, x as i64);
    push_str(v, ", ");
    push_signed_decimal(v, y as i64);
    push_str(v, ")");
    assert(final(v)@ =~= old(v)@ + point_text(x as int, y as int));
}

/// "The mouse did not get there" with the target and the cursor.
pub open spec fn not_there_message(tx: int, ty: int, fx: int, fy: int) -> Seq<char> {
    "鼠标未到位；目标 "@ + point_text(tx, ty) + "，当前 "@ + point_text(fx, fy)
}

fn not_there(tx: i32, ty: i32, fx: i32, fy: i32) -> (res: String)
    ensures
        res@ == not_there_message(tx as int, ty as int, fx as int, fy as int),
{
    let mut v = chars_of("鼠标未到位；目标 ");
    push_point(&mut v, tx, ty);
    push_str(&mut v, "，当前 ");
    push_point(&mut v, fx, fy);
    assert(v@ =~= not_there_message(tx as int, ty as int, fx as int, fy as int));
    string_from_chars(v.as_slice())
}

/// Whether the cursor the script reports is within 8 pixels of the target.
pub open spec fn cursor_on_target(ps: PhysicalInputResult, x: i32, y: i32) -> bool {
    match (ps.cursor_x, ps.cursor_y) {
        (Some(cx), Some(cy)) => -8 <= cx - x <= 8 && -8 <= cy - y <= 8,
        _ => false,
    }
}

/// The verdict on a physical-input script run: the detail of a success, or
/// the failure detail when the script's input did not land.
pub open spec fn script_input_verdict(ps: PhysicalInputResult, x: i32, y: i32, click: bool, typing: bool) -> Result<Seq<char>, Seq<char>> {
    let ok = cursor_on_target(ps, x, y) && if typing {
        ps.typed
    } else if click {
        ps.clicked
    } else {
        ps.moved
    };
    if ok {
        Ok(
            if typing {
                "同进程PS输入路径 "@
            } else if click {
                "同进程PS点击 "@
            } else {
                "同进程PS移动 "@
            } + point_text(x as int, y as int),
        )
    } else {
        Err(
            not_there_message(
                x as int,
                y as int,
                match ps.cursor_x {
                    Some(c) => c as int,
                    None => -1,
                },
                match ps.cursor_y {
                    Some(c) => c as int,
                    None => -1,
                },
            ),
        )
    }
}

pub fn physical_input_verdict(ps: &PhysicalInputResult, x: i32, y: i32, click: bool, typing: bool) -> (res:
    Result<String, String>)
    ensures
        match script_input_verdict(*ps, x, y, click, typing) {
            Ok(d) => res matches Ok(m) && m@ == d,
            Err(d) => res matches Err(m) && m@ == d,
        },
{
    let cursor_ok = match (ps.cursor_x, ps.cursor_y) {
        (Some(cx), Some(cy)) => {
            let dx: i64 = cx as i64 - x as i64;
            let dy: i64 = cy as i64 - y as i64;
            -8 <= dx && dx <= 8 && -8 <= dy && dy <= 8
        },
        _ => false,
    };
    let ok = if typing {
        ps.typed && cursor_ok
    } else if click {
        ps.clicked && cursor_ok
    } else {
        ps.moved && cursor_ok
    };
    if ok {
        let mut v = if typing {
            chars_of("同进程PS输入路径 ")
        } else if click {
            chars_of("同进程PS点击 ")
        } else {
            chars_of("同进程PS移动 ")
        };
        push_point(&mut v, x, y);
        Ok(string_from_chars(v.as_slice()))
    } else {
        let fx = match ps.cursor_x {
            Some(c) => c,
            None => -1,
        };
        let fy = match ps.cursor_y {
            Some(c) => c,
            None => -1,
        };
        Err(not_there(x, y, fx, fy))
    }
}

/// The outcome once the in-process fallback ran after the script's input
/// missed: success names the fallback; failure reports where the cursor
/// ended, or the script's failure detail when that is unknown.
pub open spec fn fallback_after_script_spec(report_success: bool, report_target: (i32, i32), report_final: Option<(i32, i32)>, x: i32, y: i32, click: bool, script_detail: Seq<char>) -> (bool, Seq<char>) {
    if report_success {
        (
            true,
            "Rust兜底"@ + if click {
                "点击"@
            } else {
                "移动"@
            } + " "@ + point_text(report_target.0 as int, report_target.1 as int),
        )
    } else {
        (
            false,
            match report_final {
                Some(f) => not_there_message(x as int, y as int, f.0 as int, f.1 as int),
                None => script_detail,
            },
        )
    }
}

pub open spec fn report_final(r: InputReport) -> Option<(i32, i32)> {
    match (r.final_x, r.final_y) {
        (Some(fx), Some(fy)) => Some((fx, fy)),
        _ => None,
    }
}

pub fn fallback_after_script(report: &InputReport, x: i32, y: i32, click: bool, script_detail: String) -> (res:
    (bool, String))
    ensures
        (res.0, res.1@) == fallback_after_script_spec(
            report.success,
            (report.target_x, report.target_y),
            report_final(*report),
            x,
            y,
            click,
            script_detail@,
        ),
{
    if report.success {
        let mut v = chars_of("Rust兜底");
        push_str(&mut v, if click { "点击" } else { "移动" });
        push_str(&mut v, " ");
        push_point(&mut v, report.target_x, report.target_y);
        (true, string_from_chars(v.as_slice()))
    } else {
        match (report.final_x, report.final_y) {
            (Some(fx), Some(fy)) => (false, not_there(x, y, fx, fy)),
            _ => (false, script_detail),
        }
    }
}

/// The outcome when the script could not run and the in-process input was
/// used instead.
pub open spec fn fallback_after_error_spec(report_success: bool, method: Seq<char>, report_target: (i32, i32), report_final: Option<(i32, i32)>, x: i32, y: i32) -> (bool, Seq<char>) {
    if report_success {
        (true, "Rust"@ + method + " "@ + point_text(report_target.0 as int, report_target.1 as int))
    } else {
        (
            false,
            match report_final {
                Some(f) => not_there_message(x as int, y as int, f.0 as int, f.1 as int),
                None => "Rust物理输入失败 "@ + point_text(x as int, y as int),
            },
        )
    }
}

pub fn fallback_after_script_error(report: &InputReport, x: i32, y: i32) -> (res: (bool, String))
    ensures
        (res.0, res.1@) == fallback_after_error_spec(
            report.success,
            report.method@,
            (report.target_x, report.target_y),
            report_final(*report),
            x,
            y,
        ),
{
    if report.success {
        let mut v = chars_of("Rust");
        push_str(&mut v, report.method.as_str());
        push_str(&mut v, " ");
        push_point(&mut v, report.target_x, report.target_y);
        (true, string_from_chars(v.as_slice()))
    } else {
        match (report.final_x, report.final_y) {
            (Some(fx), Some(fy)) => (false, not_there(x, y, fx, fy)),
            _ => {
                let mut v = chars_of("Rust物理输入失败 ");
                push_point(&mut v, x, y);
                (false, string_from_chars(v.as_slice()))
            },
        }
    }
}

/// Records the outcome of the input: `已通过{detail}` on success, the
/// detail itself on failure.
pub fn finish_visual_input(result: &mut VisualTargetResult, success: bool, detail: String)
    ensures
        final(result).success == success,
        final(result).message@ == if success {
            "已通过"@ + detail@
        } else {
            detail@
        },
        *final(result) == (VisualTargetResult {
            success,
            message: final(result).message,
            ..*old(result)
        }),
{
    result.success = success;
    result.message = if success {
        let mut v = chars_of("已通过");
        push_str(&mut v, detail.as_str());
        string_from_chars(v.as_slice())
    } else {
        detail
    };
}

// ---------------------------------------------------------------------------
// Closing a window and picking a colour
// ---------------------------------------------------------------------------
/// The title to close: the given one trimmed, `WeGame` when blank.
pub open spec fn close_title(window_title: Seq<char>) -> Seq<char> {
    if trim(window_title).len() == 0 {
        "WeGame"@
    } else {
        trim(window_title)
    }
}

pub fn close_window_title(window_title: &str) -> (res: String)
    ensures
        res@ == close_title(window_title@),
{
    if crate::text::is_blank(window_title) {
        String::from_str("WeGame")
    } else {
        crate::text::trim_string(window_title)
    }
}

/// A PowerShell single-quoted literal's body: each `'` doubled.
pub open spec fn ps_single_quoted(s: Seq<char>) -> Seq<char>
    decreases s.len(),
{
    if s.len() == 0 {
        Seq::empty()
    } else {
        ps_single_quoted(s.drop_last()) + if s.last() == '\'' {
            seq!['\'', '\'']
        } else {
            seq![s.last()]
        }
    }
}

pub(crate) fn ps_single_quoted_exec(s: &[char]) -> (res: Vec<char>)
    ensures
        res@ == ps_single_quoted(s@),
{
    let mut out: Vec<char> = Vec::new();
    let mut i: usize = 0;
    while i < s.len()
        invariant
            i <= s@.len(),
            out@ == ps_single_quoted(s@.take(i as int)),
        decreases s@.len() - i,
    {
        assert(s@.take(i + 1).drop_last() =~= s@.take(i as int));
        let ghost before = out@;
        if s[i] == '\'' {
            out.push('\'');
            out.push('\'');
            assert(out@ =~= before + seq!['\'', '\'']);
        } else {
            out.push(s[i]);
            assert(out@ =~= before + seq![s@[i as int]]);
        }
        i = i + 1;
    }
    assert(s@.take(i as int) =~= s@);
    out
}

/// The PowerShell script that closes (then, after a pause, stops) the
/// processes whose main window title contains the title, printing counts and
/// exiting with code 2 when none matched.
pub open spec fn close_window_script_spec(title: Seq<char>) -> Seq<char> {
    "\n$needle = '"@ + ps_single_quoted(title) + "'\n$matched = @(Get-Process | Where-Object { $_.MainWindowTitle -and $_.MainWindowTitle -like \"*$needle*\" })\n$closed = 0\n$killed = 0\nforeach ($p in $matched) {\n  try {\n    if ($p.CloseMainWindow()) { $closed++ }\n  } catch {}\n}\nStart-Sleep -Milliseconds 800\nforeach ($p in $matched) {\n  try {\n    $p.Refresh()\n    if (-not $p.HasExited) {\n      Stop-Process -Id $p.Id -Force -ErrorAction SilentlyContinue\n      $killed++\n    }\n  } catch {}\n}\nWrite-Output (\"matched={0};closed={1};killed={2}\" -f $matched.Count, $closed, $killed)\nif ($matched.Count -eq 0) { exit 2 }\n"@
}

pub fn close_window_script(title: &str) -> (res: String)
    ensures
        res@ == close_window_script_spec(title@),
{
    let mut v = chars_of("\n$needle = '");
    let q = ps_single_quoted_exec(chars_of(title).as_slice());
    push_all(&mut v, q.as_slice());
    push_str(&mut v, "'\n$matched = @(Get-Process | Where-Object { $_.MainWindowTitle -and $_.MainWindowTitle -like \"*$needle*\" })\n$closed = 0\n$killed = 0\nforeach ($p in $matched) {\n  try {\n    if ($p.CloseMainWindow()) { $closed++ }\n  } catch {}\n}\nStart-Sleep -Milliseconds 800\nforeach ($p in $matched) {\n  try {\n    $p.Refresh()\n    if (-not $p.HasExited) {\n      Stop-Process -Id $p.Id -Force -ErrorAction SilentlyContinue\n      $killed++\n    }\n  } catch {}\n}\nWrite-Output (\"matched={0};closed={1};killed={2}\" -f $matched.Count, $closed, $killed)\nif ($matched.Count -eq 0) { exit 2 }\n");
    assert(v@ =~= close_window_script_spec(title@));
    string_from_chars(v.as_slice())
}

/// The message after the close script ran.
pub open spec fn close_window_message(title: Seq<char>, success: bool, code: Option<i32>, stdout: Seq<char>, stderr: Seq<char>) -> Seq<char> {
    if success {
        "已关闭目标窗口: "@ + trim(stdout)
    } else if code == Some(2i32) {
        "未找到目标窗口: "@ + title
    } else {
        "关闭目标窗口失败: "@ + if trim(stderr).len() == 0 {
            trim(stdout)
        } else {
            trim(stderr)
        }
    }
}

/// The result of closing the windows titled `title`.
pub fn close_window_result(title: String, success: bool, code: Option<i32>, stdout: &str, stderr: &str) -> (res:
    VisualTargetResult)
    ensures
        res.success == success,
        opt_string_view(res.window_title) == Some(title@),
        res.message@ == close_window_message(title@, success, code, stdout@, stderr@),
        nothing_located(res),
{
    let mut v: Vec<char>;
    if success {
        v = chars_of("已关闭目标窗口: ");
        let t = crate::text::trimmed(stdout);
        push_all(&mut v, t.as_slice());
    } else if code == Some(2i32) {
        v = chars_of("未找到目标窗口: ");
        push_str(&mut v, title.as_str());
    } else {
        v = chars_of("关闭目标窗口失败: ");
        let t = if crate::text::is_blank(stderr) {
            crate::text::trimmed(stdout)
        } else {
            crate::text::trimmed(stderr)
        };
        push_all(&mut v, t.as_slice());
    }
    let message = string_from_chars(v.as_slice());
    message_result(success, Some(title), message)
}

/// How long to wait before the colour under the cursor is sampled, in
/// milliseconds: the requested delay (none when not given), at most five
/// seconds.
pub fn color_pick_delay(delay_ms: Option<u64>) -> (res: u64)
    ensures
        res == match delay_ms {
            Some(d) => if d < 5000 {
                d
            } else {
                5000
            },
            None => 0,
        },
{
    match delay_ms {
        Some(d) => if d < 5000 {
            d
        } else {
            5000
        },
        None => 0,
    }
}

/// A colour under the cursor.
pub struct PickedScreenColor {
    pub hex: String,
    pub r: u8,
    pub g: u8,
    pub b: u8,
    pub screen_x: i32,
    pub screen_y: i32,
}

pub open spec fn hex_digit(d: int) -> char {
    if d < 10 {
        crate::text::digit_char(d as nat)
    } else if d == 10 {
        'A'
    } else if d == 11 {
        'B'
    } else if d == 12 {
        'C'
    } else if d == 13 {
        'D'
    } else if d == 14 {
        'E'
    } else {
        'F'
    }
}

/// Two upper-case hexadecimal digits.
pub open spec fn hex2(b: u8) -> Seq<char> {
    seq![hex_digit(b as int / 16), hex_digit(b as int % 16)]
}

fn hex_digit_exec(d: u8) -> (res: char)
    requires
        d < 16,
    ensures
        res == hex_digit(d as int),
{
    if d < 10 {
        let mut v: Vec<char> = Vec::new();
        push_decimal(&mut v, d as u128);
        assert(v@ == crate::text::decimal(d as nat));
        assert(crate::text::decimal(d as nat) == seq![crate::text::digit_char(d as nat)]);
        v[0]
    } else if d == 10 {
        'A'
    } else if d == 11 {
        'B'
    } else if d == 12 {
        'C'
    } else if d == 13 {
        'D'
    } else if d == 14 {
        'E'
    } else {
        'F'
    }
}

/// The colour of a `COLORREF` (`0x00BBGGRR`) read at a screen point;
/// `CLR_INVALID` (all ones) means the pixel could not be read.
pub fn picked_screen_color(color: u32, screen_x: i32, screen_y: i32) -> (res: Result<
    PickedScreenColor,
    String,
>)
    ensures
        color == 0xFFFF_FFFFu32 ==> (res matches Err(e) && e@ == "拾取颜色失败"@),
        color != 0xFFFF_FFFFu32 ==> (res matches Ok(c) && c.r as int == color as int % 256 && c.g
            as int == (color as int / 256) % 256 && c.b as int == (color as int / 65536) % 256
            && c.hex@ == seq!['#'] + hex2(c.r) + hex2(c.g) + hex2(c.b) && c.screen_x == screen_x
            && c.screen_y == screen_y),
{
    if color == 0xFFFF_FFFFu32 {
        return Err(String::from_str("拾取颜色失败"));
    }
    let r: u8 = (color % 256) as u8;
    let g: u8 = ((color / 256) % 256) as u8;
    let b: u8 = ((color / 65536) % 256) as u8;
    let mut v: Vec<char> = Vec::new();
    v.push('#');
    v.push(hex_digit_exec(r / 16));
    v.push(hex_digit_exec(r % 16));
    v.push(hex_digit_exec(g / 16));
    v.push(hex_digit_exec(g % 16));
    v.push(hex_digit_exec(b / 16));
    v.push(hex_digit_exec(b % 16));
    assert(v@ =~= seq!['#'] + hex2(r) + hex2(g) + hex2(b));
    Ok(PickedScreenColor { hex: string_from_chars(v.as_slice()), r, g, b, screen_x, screen_y })
}

} // verus!
