//! The table that says which sound each hotkey plays.
//!
//! The table is the soundboard's own record. The platform's hotkey hook holds
//! a second record, the callbacks that are registered with it, and the two
//! must agree: a hotkey is registered exactly while it is bound. The
//! soundboard cannot reach the hook; every change of the table therefore
//! answers with the [`HookAction`] that brings the hook back in line, and the
//! program that owns the hook carries it out. Where the hook refuses, the
//! program says at which call, and [`Soundboard::after_refusal`] brings the
//! table back in line with what the hook still holds.

use crate::hotkey::same_hotkey;
use crate::sound::{Sound, SoundView};
use livesplit_hotkey::Hotkey;
use vstd::prelude::*;

verus! {

/// One line of the table: a hotkey and the sound that it plays.
#[derive(Debug, PartialEq, Eq)]
pub struct Binding {
    pub hotkey: Hotkey,
    pub sound: Sound,
}

impl Clone for Binding {
    fn clone(&self) -> (copy: Binding)
        ensures
            copy.hotkey == self.hotkey,
            copy.sound@ == self.sound@,
    {
        Binding { hotkey: self.hotkey, sound: self.sound.clone() }
    }
}

/// What the hook must be asked to do after the table has changed.
#[derive(Debug, Clone, Copy, PartialEq, Eq)]
pub enum HookAction {
    /// Register a callback for the hotkey, which had none.
    Register,
    /// Unregister the hotkey's callback, then register the new one.
    Replace,
    /// Unregister the hotkey's callback.
    Unregister,
    /// Nothing: the hook is in line already.
    Nothing,
}

/// The call at which the hook refused an action.
#[derive(Debug, Clone, Copy, PartialEq, Eq)]
pub enum HookCall {
    /// It would not unregister: it holds what it held before the action.
    Unregister,
    /// It would not register: it holds no callback for the hotkey.
    Register,
}

/// What a soundboard is to the contracts: the sound that each bound hotkey
/// plays.
pub type Table = Map<Hotkey, SoundView>;

/// The table after `hotkey` was bound to `sound`: the last binding of a
/// hotkey is the one that counts.
pub open spec fn bound(table: Table, hotkey: Hotkey, sound: SoundView) -> Table {
    table.insert(hotkey, sound)
}

/// The table after `hotkey` was unbound.
pub open spec fn unbound(table: Table, hotkey: Hotkey) -> Table {
    table.remove(hotkey)
}

/// What `hotkey` plays in `table`, if it plays anything.
pub open spec fn played(table: Table, hotkey: Hotkey) -> Option<SoundView> {
    if table.contains_key(hotkey) {
        Some(table[hotkey])
    } else {
        None
    }
}

/// The table after `hotkey` was put back to what it played before: to
/// `previous`, or to nothing.
pub open spec fn put_back_to(table: Table, hotkey: Hotkey, previous: Option<SoundView>) -> Table {
    match previous {
        Some(sound) => bound(table, hotkey, sound),
        None => unbound(table, hotkey),
    }
}

/// What a hotkey is put back to after the hook refused at `call`: to what it
/// played before where the hook still holds that, else to nothing.
pub open spec fn left_by(call: HookCall, previous: Option<SoundView>) -> Option<SoundView> {
    match call {
        HookCall::Unregister => previous,
        HookCall::Register => None,
    }
}

/// Whether an action can be refused at a call: only at a call that it makes.
pub open spec fn refused_at(action: HookAction, call: HookCall) -> bool {
    match action {
        HookAction::Register => call == HookCall::Register,
        HookAction::Replace => true,
        HookAction::Unregister => call == HookCall::Unregister,
        HookAction::Nothing => false,
    }
}

/// The hotkeys that the hook holds a callback for, after it has refused an
/// action for `hotkey` at `call`: a refused call changes nothing, and the
/// call before it, where there was one, was carried out.
pub open spec fn registered_after_refusal(
    registered: Set<Hotkey>,
    hotkey: Hotkey,
    action: HookAction,
    call: HookCall,
) -> Set<Hotkey> {
    if action == HookAction::Replace && call == HookCall::Register {
        registered.remove(hotkey)
    } else {
        registered
    }
}

/// A sound that may be missing, as the contracts see it.
pub open spec fn sound_view(sound: Option<Sound>) -> Option<SoundView> {
    match sound {
        Some(sound) => Some(sound@),
        None => None,
    }
}

/// The action that goes with binding `hotkey` in `table`.
pub open spec fn bind_action(table: Table, hotkey: Hotkey) -> HookAction {
    if table.contains_key(hotkey) {
        HookAction::Replace
    } else {
        HookAction::Register
    }
}

/// The action that goes with unbinding `hotkey` in `table`.
pub open spec fn unbind_action(table: Table, hotkey: Hotkey) -> HookAction {
    if table.contains_key(hotkey) {
        HookAction::Unregister
    } else {
        HookAction::Nothing
    }
}

/// The table after each of `bindings` was bound, in order.
pub open spec fn bound_all(table: Table, bindings: Seq<Binding>) -> Table
    decreases bindings.len(),
{
    if bindings.len() == 0 {
        table
    } else {
        bound(
            bound_all(table, bindings.drop_last()),
            bindings.last().hotkey,
            bindings.last().sound@,
        )
    }
}

/// The actions that go with binding each of `bindings`, in order: each is the
/// one that goes with the table as the bindings before it have left it.
pub open spec fn load_actions(table: Table, bindings: Seq<Binding>) -> Seq<HookAction> {
    Seq::new(
        bindings.len(),
        |i: int| bind_action(bound_all(table, bindings.take(i)), bindings[i].hotkey),
    )
}

/// The table that a list of bindings spells out.
pub open spec fn table_of(bindings: Seq<Binding>) -> Table {
    bound_all(Map::empty(), bindings)
}

/// No hotkey stands in the list twice.
pub open spec fn distinct_hotkeys(bindings: Seq<Binding>) -> bool {
    forall|i: int, j: int|
        0 <= i < j < bindings.len() ==> bindings[i].hotkey != bindings[j].hotkey
}

/// Whether the list has a line for the hotkey.
pub open spec fn lists(bindings: Seq<Binding>, hotkey: Hotkey) -> bool {
    exists|i: int| 0 <= i < bindings.len() && bindings[i].hotkey == hotkey
}

/// The hotkeys that the hook holds a callback for, after it has carried out
/// an action for `hotkey`.
pub open spec fn registered_after(
    registered: Set<Hotkey>,
    hotkey: Hotkey,
    action: HookAction,
) -> Set<Hotkey> {
    match action {
        HookAction::Register => registered.insert(hotkey),
        HookAction::Replace => registered.remove(hotkey).insert(hotkey),
        HookAction::Unregister => registered.remove(hotkey),
        HookAction::Nothing => registered,
    }
}

/// The hotkeys that the hook holds a callback for, after it has carried out
/// the actions of a load, each for the hotkey of its binding.
pub open spec fn registered_after_load(
    registered: Set<Hotkey>,
    bindings: Seq<Binding>,
    actions: Seq<HookAction>,
) -> Set<Hotkey>
    recommends
        actions.len() == bindings.len(),
    decreases bindings.len(),
{
    if bindings.len() == 0 {
        registered
    } else {
        registered_after(
            registered_after_load(registered, bindings.drop_last(), actions.drop_last()),
            bindings.last().hotkey,
            actions.last(),
        )
    }
}

/// Whether the hook can carry out the actions of a load, one after the other.
pub open spec fn hook_accepts_load(
    registered: Set<Hotkey>,
    bindings: Seq<Binding>,
    actions: Seq<HookAction>,
) -> bool
    recommends
        actions.len() == bindings.len(),
    decreases bindings.len(),
{
    if bindings.len() == 0 {
        true
    } else {
        &&& hook_accepts_load(registered, bindings.drop_last(), actions.drop_last())
        &&& hook_accepts(
            registered_after_load(registered, bindings.drop_last(), actions.drop_last()),
            bindings.last().hotkey,
            actions.last(),
        )
    }
}

/// Whether the hook can carry out the action: it registers no hotkey twice
/// and unregisters none that it does not hold.
pub open spec fn hook_accepts(registered: Set<Hotkey>, hotkey: Hotkey, action: HookAction) -> bool {
    match action {
        HookAction::Register => !registered.contains(hotkey),
        HookAction::Replace => registered.contains(hotkey),
        HookAction::Unregister => registered.contains(hotkey),
        HookAction::Nothing => true,
    }
}

/// A table spells out the hotkeys of its list, and nothing else.
pub proof fn lemma_table_keys(bindings: Seq<Binding>, hotkey: Hotkey)
    ensures
        table_of(bindings).contains_key(hotkey) <==> lists(bindings, hotkey),
    decreases bindings.len(),
{
    if bindings.len() > 0 {
        let front = bindings.drop_last();
        lemma_table_keys(front, hotkey);
        if lists(bindings, hotkey) && bindings.last().hotkey != hotkey {
            let i: int = choose|i: int| 0 <= i < bindings.len() && bindings[i].hotkey == hotkey;
            assert(front[i].hotkey == hotkey);
        }
    }
}

/// In a list without repeats, each line says what its hotkey plays.
pub proof fn lemma_table_line(bindings: Seq<Binding>, at: int)
    requires
        distinct_hotkeys(bindings),
        0 <= at < bindings.len(),
    ensures
        table_of(bindings).contains_key(bindings[at].hotkey),
        table_of(bindings)[bindings[at].hotkey] == bindings[at].sound@,
    decreases bindings.len(),
{
    if at < bindings.len() - 1 {
        lemma_table_line(bindings.drop_last(), at);
    }
}

/// Writing a new sound over the line of a hotkey binds the hotkey anew.
pub proof fn lemma_table_overwrite(bindings: Seq<Binding>, at: int, binding: Binding)
    requires
        distinct_hotkeys(bindings),
        0 <= at < bindings.len(),
        bindings[at].hotkey == binding.hotkey,
    ensures
        distinct_hotkeys(bindings.update(at, binding)),
        table_of(bindings.update(at, binding)) == bound(
            table_of(bindings),
            binding.hotkey,
            binding.sound@,
        ),
    decreases bindings.len(),
{
    let changed = bindings.update(at, binding);
    let front = bindings.drop_last();
    if at == bindings.len() - 1 {
        assert(changed.drop_last() =~= front);
    } else {
        lemma_table_overwrite(front, at, binding);
        assert(changed.drop_last() =~= front.update(at, binding));
    }
}

/// Striking a line from a list without repeats unbinds its hotkey.
pub proof fn lemma_table_strike(bindings: Seq<Binding>, at: int)
    requires
        distinct_hotkeys(bindings),
        0 <= at < bindings.len(),
    ensures
        distinct_hotkeys(bindings.remove(at)),
        table_of(bindings.remove(at)) == unbound(table_of(bindings), bindings[at].hotkey),
    decreases bindings.len(),
{
    let struck = bindings.remove(at);
    let front = bindings.drop_last();
    if at == bindings.len() - 1 {
        lemma_table_keys(front, bindings[at].hotkey);
    } else {
        lemma_table_strike(front, at);
        assert(struck.drop_last() =~= front.remove(at));
    }
}

/// The lines of a list as pairs of a hotkey and what it plays.
pub open spec fn lines(bindings: Seq<Binding>) -> Set<(Hotkey, SoundView)> {
    Set::new(
        |line: (Hotkey, SoundView)|
            exists|i: int|
                0 <= i < bindings.len() && bindings[i].hotkey == line.0 && bindings[i].sound@
                    == line.1,
    )
}

/// A list without repeats holds the pair of a hotkey and a sound exactly
/// where its table binds the one to the other.
pub proof fn lemma_lines_of_table(bindings: Seq<Binding>, hotkey: Hotkey, sound: SoundView)
    requires
        distinct_hotkeys(bindings),
    ensures
        lines(bindings).contains((hotkey, sound)) <==> table_of(bindings).contains_key(hotkey)
            && table_of(bindings)[hotkey] == sound,
{
    lemma_table_keys(bindings, hotkey);
    if lines(bindings).contains((hotkey, sound)) {
        let i: int = choose|i: int|
            0 <= i < bindings.len() && bindings[i].hotkey == hotkey && bindings[i].sound@ == sound;
        lemma_table_line(bindings, i);
    }
    if table_of(bindings).contains_key(hotkey) && table_of(bindings)[hotkey] == sound {
        let i: int = choose|i: int| 0 <= i < bindings.len() && bindings[i].hotkey == hotkey;
        lemma_table_line(bindings, i);
    }
}

/// A list without repeats has one line for each key of its table.
pub proof fn lemma_table_size(bindings: Seq<Binding>)
    requires
        distinct_hotkeys(bindings),
    ensures
        table_of(bindings).dom().finite(),
        table_of(bindings).dom().len() == bindings.len(),
    decreases bindings.len(),
{
    if bindings.len() > 0 {
        let front = bindings.drop_last();
        lemma_table_size(front);
        lemma_table_keys(front, bindings.last().hotkey);
    }
}

/// The hotkey-to-sound table of a soundboard. It is kept as a list without
/// repeats: what vstd states of std's hash map holds for keys whose hashing
/// Verus knows, and a hotkey of another crate is not among them.
pub struct Soundboard {
    sound_bindings: Vec<Binding>,
}

impl View for Soundboard {
    type V = Table;

    /// The sound that each bound hotkey plays.
    closed spec fn view(&self) -> Table {
        table_of(self.sound_bindings@)
    }
}

impl Soundboard {
    /// No hotkey has two lines in the table.
    pub closed spec fn wf(&self) -> bool {
        distinct_hotkeys(self.sound_bindings@)
    }

    /// The table as a list, in the order in which [`Soundboard::sounds`]
    /// gives it. The order carries no meaning.
    pub closed spec fn listed(&self) -> Seq<Binding> {
        self.sound_bindings@
    }

    /// The list has one line for each bound hotkey, and spells out the table.
    pub proof fn law_list_spells_table(&self)
        requires
            self.wf(),
        ensures
            distinct_hotkeys(self.listed()),
            table_of(self.listed()) == self@,
            self@.dom().finite(),
            self.listed().len() == self@.dom().len(),
    {
        lemma_table_size(self.sound_bindings@);
    }

    /// A soundboard with nothing bound.
    pub fn new() -> (board: Soundboard)
        ensures
            board.wf(),
            board@ == Table::empty(),
    {
        Soundboard { sound_bindings: Vec::new() }
    }

    /// The place of the hotkey's line in the table, if it has one.
    fn find(&self, hotkey: &Hotkey) -> (place: Option<usize>)
        ensures
            place is Some ==> place->Some_0 < self.sound_bindings@.len()
                && self.sound_bindings@[place->Some_0 as int].hotkey == *hotkey,
            place is None ==> !lists(self.sound_bindings@, *hotkey),
    {
        let mut at: usize = 0;
        while at < self.sound_bindings.len()
            invariant
                at <= self.sound_bindings@.len(),
                forall|i: int| 0 <= i < at ==> self.sound_bindings@[i].hotkey != *hotkey,
            decreases self.sound_bindings@.len() - at,
        {
            if same_hotkey(&self.sound_bindings[at].hotkey, hotkey) {
                return Some(at);
            }
            at += 1;
        }
        None
    }

    /// Whether the hotkey plays a sound.
    pub fn is_bound(&self, hotkey: Hotkey) -> (is_bound: bool)
        ensures
            is_bound == self@.contains_key(hotkey),
    {
        proof {
            lemma_table_keys(self.sound_bindings@, hotkey);
        }
        self.find(&hotkey).is_some()
    }

    /// The sound that the hotkey plays, if it plays one.
    pub fn sound_for(&self, hotkey: Hotkey) -> (sound: Option<&Sound>)
        requires
            self.wf(),
        ensures
            sound is Some <==> self@.contains_key(hotkey),
            sound is Some ==> sound->Some_0@ == self@[hotkey],
    {
        proof {
            lemma_table_keys(self.sound_bindings@, hotkey);
        }
        match self.find(&hotkey) {
            Some(at) => {
                proof {
                    lemma_table_line(self.sound_bindings@, at as int);
                }
                Some(&self.sound_bindings[at].sound)
            },
            None => None,
        }
    }

    /// A copy of the sound that the hotkey plays, if it plays one.
    pub fn copy_of(&self, hotkey: Hotkey) -> (sound: Option<Sound>)
        requires
            self.wf(),
        ensures
            sound_view(sound) == played(self@, hotkey),
    {
        match self.sound_for(hotkey) {
            Some(sound) => Some(sound.clone()),
            None => None,
        }
    }

    /// Puts the hotkey back to what it played before: to `previous`, or to
    /// nothing. This undoes a bind or an unbind of the hotkey.
    pub fn put_back(&mut self, hotkey: Hotkey, previous: Option<Sound>)
        requires
            old(self).wf(),
        ensures
            final(self).wf(),
            final(self)@ == put_back_to(old(self)@, hotkey, sound_view(previous)),
    {
        match previous {
            Some(sound) => {
                let _ = self.bind_new(sound, hotkey);
            },
            None => {
                let _ = self.unbind(hotkey);
            },
        }
    }

    /// Brings the table back in line after the hook has refused the action
    /// that a bind or an unbind of the hotkey answered with. `previous` is
    /// what the hotkey played before that bind or unbind, and `call` the call
    /// that the hook refused. Where the hook still holds the callback that it
    /// held, the hotkey plays again what it played; where it holds none, the
    /// hotkey plays nothing.
    pub fn after_refusal(&mut self, hotkey: Hotkey, previous: Option<Sound>, call: HookCall)
        requires
            old(self).wf(),
        ensures
            final(self).wf(),
            final(self)@ == put_back_to(old(self)@, hotkey, left_by(call, sound_view(previous))),
    {
        match call {
            HookCall::Unregister => self.put_back(hotkey, previous),
            HookCall::Register => self.put_back(hotkey, None),
        }
    }

    /// Binds the hotkey to the sound. A sound that the hotkey played before
    /// is forgotten. The hook must then register the new callback, after
    /// unregistering the old one where there was one.
    pub fn bind_new(&mut self, new_sound: Sound, hotkey: Hotkey) -> (action: HookAction)
        requires
            old(self).wf(),
        ensures
            final(self).wf(),
            final(self)@ == bound(old(self)@, hotkey, new_sound@),
            lines(final(self).listed()).contains((hotkey, new_sound@)),
            action == bind_action(old(self)@, hotkey),
    {
        proof {
            lemma_table_keys(self.sound_bindings@, hotkey);
        }
        let binding = Binding { hotkey, sound: new_sound };
        let action = match self.find(&hotkey) {
            Some(at) => {
                proof {
                    lemma_table_overwrite(self.sound_bindings@, at as int, binding);
                }
                self.sound_bindings[at] = binding;
                HookAction::Replace
            },
            None => {
                proof {
                    let grown = self.sound_bindings@.push(binding);
                    assert(grown.drop_last() =~= self.sound_bindings@);
                }
                self.sound_bindings.push(binding);
                HookAction::Register
            },
        };
        proof {
            lemma_lines_of_table(self.sound_bindings@, hotkey, binding.sound@);
        }
        action
    }

    /// Unbinds the hotkey. A hotkey that plays nothing is left as it is, and
    /// the hook has nothing to do; else it must unregister the callback.
    pub fn unbind(&mut self, hotkey: Hotkey) -> (action: HookAction)
        requires
            old(self).wf(),
        ensures
            final(self).wf(),
            final(self)@ == unbound(old(self)@, hotkey),
            !lists(final(self).listed(), hotkey),
            action == unbind_action(old(self)@, hotkey),
            !old(self)@.contains_key(hotkey) ==> final(self)@ == old(self)@,
    {
        proof {
            lemma_table_keys(self.sound_bindings@, hotkey);
        }
        let action = match self.find(&hotkey) {
            Some(at) => {
                proof {
                    lemma_table_strike(self.sound_bindings@, at as int);
                }
                let _ = self.sound_bindings.remove(at);
                HookAction::Unregister
            },
            None => HookAction::Nothing,
        };
        proof {
            lemma_table_keys(self.sound_bindings@, hotkey);
        }
        action
    }

    /// The table as a list, one line for each bound hotkey.
    pub fn sounds(&self) -> (list: &Vec<Binding>)
        requires
            self.wf(),
        ensures
            list@ == self.listed(),
            distinct_hotkeys(list@),
            table_of(list@) == self@,
    {
        &self.sound_bindings
    }

    /// The number of bound hotkeys.
    pub fn len(&self) -> (count: usize)
        requires
            self.wf(),
        ensures
            count == self@.dom().len(),
            self@.dom().finite(),
    {
        proof {
            lemma_table_size(self.sound_bindings@);
        }
        self.sound_bindings.len()
    }

    /// Binds what a save holds, line by line in the order of the save, as
    /// [`Soundboard::bind_new`] does, and answers with the action for each
    /// line. Where the save binds a hotkey twice, the later line counts.
    pub fn load_from_save(&mut self, saved: &[Binding]) -> (actions: Vec<HookAction>)
        requires
            old(self).wf(),
        ensures
            final(self).wf(),
            final(self)@ == bound_all(old(self)@, saved@),
            actions@ == load_actions(old(self)@, saved@),
    {
        let mut actions: Vec<HookAction> = Vec::new();
        let mut at: usize = 0;
        while at < saved.len()
            invariant
                at <= saved@.len(),
                self.wf(),
                actions@.len() == at,
                self@ == bound_all(old(self)@, saved@.take(at as int)),
                forall|i: int| 0 <= i < at ==> actions@[i] == load_actions(old(self)@, saved@)[i],
            decreases saved@.len() - at,
        {
            let action = self.bind_new(saved[at].sound.clone(), saved[at].hotkey);
            actions.push(action);
            assert(saved@.take(at + 1).drop_last() =~= saved@.take(at as int));
            at += 1;
        }
        assert(saved@.take(at as int) =~= saved@);
        actions
    }
}

/// After a hotkey was bound to a sound, the table lists the two together.
pub proof fn law_bound_is_listed(table: Table, hotkey: Hotkey, sound: SoundView)
    ensures
        bound(table, hotkey, sound).contains_key(hotkey),
        bound(table, hotkey, sound)[hotkey] == sound,
{
}

/// After a hotkey was bound and then unbound, the table does not list it,
/// and lists every other hotkey as before.
pub proof fn law_unbound_is_not_listed(
    table: Table,
    hotkey: Hotkey,
    sound: SoundView,
)
    ensures
        !unbound(bound(table, hotkey, sound), hotkey).contains_key(hotkey),
        unbound(bound(table, hotkey, sound), hotkey) == unbound(table, hotkey),
{
}

/// The last write wins: of two sounds bound to one hotkey, only the second
/// stays bound.
pub proof fn law_last_write_wins(
    table: Table,
    hotkey: Hotkey,
    first: SoundView,
    second: SoundView,
)
    ensures
        bound(bound(table, hotkey, first), hotkey, second) == bound(table, hotkey, second),
        bound(bound(table, hotkey, first), hotkey, second)[hotkey] == second,
{
}

/// Unbinding a hotkey that is not bound changes nothing and asks nothing of
/// the hook.
pub proof fn law_unbinding_the_unbound(table: Table, hotkey: Hotkey)
    requires
        !table.contains_key(hotkey),
    ensures
        unbound(table, hotkey) == table,
        unbind_action(table, hotkey) == HookAction::Nothing,
{
}

/// A saved table loads back: whatever the order in which the saved lines
/// come back, binding them on an empty table gives the table that was saved.
pub proof fn law_saved_table_loads_back(saved: Seq<Binding>, loaded: Seq<Binding>)
    requires
        distinct_hotkeys(saved),
        distinct_hotkeys(loaded),
        lines(loaded) == lines(saved),
    ensures
        bound_all(Map::empty(), loaded) == table_of(saved),
{
    let back = bound_all(Map::empty(), loaded);
    let kept = table_of(saved);
    assert forall|hotkey: Hotkey| back.contains_key(hotkey) == kept.contains_key(hotkey) by {
        if back.contains_key(hotkey) {
            lemma_lines_of_table(loaded, hotkey, back[hotkey]);
            lemma_lines_of_table(saved, hotkey, back[hotkey]);
        }
        if kept.contains_key(hotkey) {
            lemma_lines_of_table(saved, hotkey, kept[hotkey]);
            lemma_lines_of_table(loaded, hotkey, kept[hotkey]);
        }
    }
    assert forall|hotkey: Hotkey| back.contains_key(hotkey) implies back[hotkey]
        == kept[hotkey] by {
        lemma_lines_of_table(loaded, hotkey, back[hotkey]);
        lemma_lines_of_table(saved, hotkey, back[hotkey]);
    }
}

/// Table and hook stay in line through a bind: where the hook holds a
/// callback for exactly the bound hotkeys, it can carry out the action that
/// the bind answers with, and then holds one for exactly the hotkeys that
/// are bound after it.
pub proof fn law_hook_follows_bind(
    table: Table,
    registered: Set<Hotkey>,
    hotkey: Hotkey,
    sound: SoundView,
)
    requires
        registered == table.dom(),
    ensures
        hook_accepts(registered, hotkey, bind_action(table, hotkey)),
        registered_after(registered, hotkey, bind_action(table, hotkey)) == bound(
            table,
            hotkey,
            sound,
        ).dom(),
{
    assert(registered_after(registered, hotkey, bind_action(table, hotkey)) =~= bound(
        table,
        hotkey,
        sound,
    ).dom());
}

/// Table and hook stay in line through a load: the hook can carry out the
/// actions that the load answers with, one after the other, and then holds a
/// callback for exactly the hotkeys that are bound after it.
pub proof fn law_hook_follows_load(
    table: Table,
    registered: Set<Hotkey>,
    bindings: Seq<Binding>,
)
    requires
        registered == table.dom(),
    ensures
        hook_accepts_load(registered, bindings, load_actions(table, bindings)),
        registered_after_load(registered, bindings, load_actions(table, bindings)) == bound_all(
            table,
            bindings,
        ).dom(),
    decreases bindings.len(),
{
    if bindings.len() > 0 {
        let front = bindings.drop_last();
        let actions = load_actions(table, bindings);
        law_hook_follows_load(table, registered, front);
        assert(actions.drop_last() =~= load_actions(table, front)) by {
            assert forall|i: int| 0 <= i < front.len() implies #[trigger] actions.drop_last()[i]
                == load_actions(table, front)[i] by {
                assert(bindings.take(i) =~= front.take(i));
            }
        }
        law_hook_follows_bind(
            bound_all(table, front),
            bound_all(table, front).dom(),
            bindings.last().hotkey,
            bindings.last().sound@,
        );
    }
}

/// Putting a hotkey back undoes a bind: the table is as it was before.
pub proof fn law_put_back_undoes_bind(table: Table, hotkey: Hotkey, sound: SoundView)
    ensures
        put_back_to(bound(table, hotkey, sound), hotkey, played(table, hotkey)) == table,
{
    assert(put_back_to(bound(table, hotkey, sound), hotkey, played(table, hotkey)) =~= table);
}

/// Putting a hotkey back undoes an unbind: the table is as it was before.
pub proof fn law_put_back_undoes_unbind(table: Table, hotkey: Hotkey)
    ensures
        put_back_to(unbound(table, hotkey), hotkey, played(table, hotkey)) == table,
{
    assert(put_back_to(unbound(table, hotkey), hotkey, played(table, hotkey)) =~= table);
}

/// Table and hook stay in line through a bind that the hook refuses: where
/// the hook held a callback for exactly the bound hotkeys, then after the
/// refusal and [`Soundboard::after_refusal`] it holds one for exactly the
/// hotkeys that are bound. Where it refused its first call, the table is
/// as it was before the bind.
pub proof fn law_refused_bind_is_undone(
    table: Table,
    registered: Set<Hotkey>,
    hotkey: Hotkey,
    sound: SoundView,
    call: HookCall,
)
    requires
        registered == table.dom(),
        refused_at(bind_action(table, hotkey), call),
    ensures
        put_back_to(bound(table, hotkey, sound), hotkey, left_by(call, played(table, hotkey))).dom()
            == registered_after_refusal(registered, hotkey, bind_action(table, hotkey), call),
        bind_action(table, hotkey) == HookAction::Register || call == HookCall::Unregister
            ==> put_back_to(bound(table, hotkey, sound), hotkey, left_by(call, played(table, hotkey)))
            == table,
{
    let back = put_back_to(bound(table, hotkey, sound), hotkey, left_by(call, played(table, hotkey)));
    assert(back.dom() =~= registered_after_refusal(
        registered,
        hotkey,
        bind_action(table, hotkey),
        call,
    ));
    if bind_action(table, hotkey) == HookAction::Register || call == HookCall::Unregister {
        assert(back =~= table);
    }
}

/// Table and hook stay in line through an unbind that the hook refuses, in
/// the same way: the table is as it was before the unbind.
pub proof fn law_refused_unbind_is_undone(
    table: Table,
    registered: Set<Hotkey>,
    hotkey: Hotkey,
    call: HookCall,
)
    requires
        registered == table.dom(),
        refused_at(unbind_action(table, hotkey), call),
    ensures
        put_back_to(unbound(table, hotkey), hotkey, left_by(call, played(table, hotkey))) == table,
        table.dom() == registered_after_refusal(
            registered,
            hotkey,
            unbind_action(table, hotkey),
            call,
        ),
{
    assert(put_back_to(unbound(table, hotkey), hotkey, left_by(call, played(table, hotkey)))
        =~= table);
}

/// Table and hook stay in line through an unbind, in the same way.
pub proof fn law_hook_follows_unbind(
    table: Table,
    registered: Set<Hotkey>,
    hotkey: Hotkey,
)
    requires
        registered == table.dom(),
    ensures
        hook_accepts(registered, hotkey, unbind_action(table, hotkey)),
        registered_after(registered, hotkey, unbind_action(table, hotkey)) == unbound(
            table,
            hotkey,
        ).dom(),
{
    assert(registered_after(registered, hotkey, unbind_action(table, hotkey)) =~= unbound(
        table,
        hotkey,
    ).dom());
}

} // verus!
