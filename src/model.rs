//! The guild snapshot that every decision reads.
use vstd::prelude::*;

verus! {

/// Channel type code of a guild voice channel.
pub const GUILD_VOICE: u8 = 2;

/// Channel type code of a guild stage channel.
pub const GUILD_STAGE_VOICE: u8 = 13;

/// Overwrite type code of a role overwrite.
pub const OVERWRITE_ROLE: u8 = 0;

/// Overwrite type code of a member overwrite.
pub const OVERWRITE_MEMBER: u8 = 1;

/// A channel permission overwrite: allow and deny bits for one role or member.
#[derive(Clone, Copy, Debug, PartialEq, Eq, Structural)]
pub struct Overwrite {
    pub id: u64,
    pub kind: u8,
    pub allow: u64,
    pub deny: u64,
}

/// A channel of the guild.
#[derive(Clone, Debug)]
pub struct Channel {
    pub id: u64,
    pub kind: u8,
    pub overwrites: Vec<Overwrite>,
}

/// A role of the guild. The `@everyone` role has the guild's id.
#[derive(Clone, Debug)]
pub struct Role {
    pub id: u64,
    pub name: String,
    pub permissions: u64,
}

/// A member of the guild and the roles it holds (`@everyone` not included).
#[derive(Clone, Debug)]
pub struct Member {
    pub user: u64,
    pub roles: Vec<u64>,
}

/// A user connected to a voice channel of the guild.
#[derive(Clone, Copy, Debug, PartialEq, Eq, Structural)]
pub struct VoiceState {
    pub user: u64,
    pub channel: u64,
}

/// What the engine reads of one guild.
#[derive(Clone, Debug)]
pub struct Guild {
    pub id: u64,
    pub owner: u64,
    pub channels: Vec<Channel>,
    pub roles: Vec<Role>,
    pub members: Vec<Member>,
    pub voice_states: Vec<VoiceState>,
}

/// What a [`Channel`] holds, as a mathematical value.
pub struct ChannelModel {
    pub id: u64,
    pub kind: u8,
    pub overwrites: Seq<Overwrite>,
}

/// What a [`Role`] holds, as a mathematical value.
pub struct RoleModel {
    pub id: u64,
    pub name: Seq<char>,
    pub permissions: u64,
}

/// What a [`Member`] holds, as a mathematical value.
pub struct MemberModel {
    pub user: u64,
    pub roles: Seq<u64>,
}

/// What a [`Guild`] holds, as a mathematical value.
pub struct GuildModel {
    pub id: u64,
    pub owner: u64,
    pub channels: Seq<ChannelModel>,
    pub roles: Seq<RoleModel>,
    pub members: Seq<MemberModel>,
    pub voice_states: Seq<VoiceState>,
}

impl View for Channel {
    type V = ChannelModel;

    open spec fn view(&self) -> ChannelModel {
        ChannelModel { id: self.id, kind: self.kind, overwrites: self.overwrites@ }
    }
}

impl View for Role {
    type V = RoleModel;

    open spec fn view(&self) -> RoleModel {
        RoleModel { id: self.id, name: self.name@, permissions: self.permissions }
    }
}

impl View for Member {
    type V = MemberModel;

    open spec fn view(&self) -> MemberModel {
        MemberModel { user: self.user, roles: self.roles@ }
    }
}

impl View for Guild {
    type V = GuildModel;

    open spec fn view(&self) -> GuildModel {
        GuildModel {
            id: self.id,
            owner: self.owner,
            channels: self.channels@.map_values(|c: Channel| c@),
            roles: self.roles@.map_values(|r: Role| r@),
            members: self.members@.map_values(|m: Member| m@),
            voice_states: self.voice_states@,
        }
    }
}

/// Index of the last channel with the given id.
pub open spec fn channel_index(s: Seq<ChannelModel>, id: u64) -> Option<int>
    decreases s.len(),
{
    if s.len() == 0 {
        None
    } else if s.last().id == id {
        Some(s.len() - 1)
    } else {
        channel_index(s.drop_last(), id)
    }
}

/// Index of the last role with the given id.
pub open spec fn role_index(s: Seq<RoleModel>, id: u64) -> Option<int>
    decreases s.len(),
{
    if s.len() == 0 {
        None
    } else if s.last().id == id {
        Some(s.len() - 1)
    } else {
        role_index(s.drop_last(), id)
    }
}

/// Index of the last member record of the given user.
pub open spec fn member_index(s: Seq<MemberModel>, user: u64) -> Option<int>
    decreases s.len(),
{
    if s.len() == 0 {
        None
    } else if s.last().user == user {
        Some(s.len() - 1)
    } else {
        member_index(s.drop_last(), user)
    }
}

/// Index of the last voice state of the given user.
pub open spec fn voice_index(s: Seq<VoiceState>, user: u64) -> Option<int>
    decreases s.len(),
{
    if s.len() == 0 {
        None
    } else if s.last().user == user {
        Some(s.len() - 1)
    } else {
        voice_index(s.drop_last(), user)
    }
}

/// What channel_index returns: an index holding the key, or none if no element does.
pub proof fn lemma_channel_index(s: Seq<ChannelModel>, key: u64)
    ensures
        channel_index(s, key) matches Some(i) ==> 0 <= i < s.len() && s[i].id == key,
        channel_index(s, key) is None ==> forall|k: int| 0 <= k < s.len() ==> #[trigger] s[k].id != key,
    decreases s.len(),
{
    if s.len() > 0 {
        lemma_channel_index(s.drop_last(), key);
        if channel_index(s, key) is None {
            assert forall|k: int| 0 <= k < s.len() implies #[trigger] s[k].id != key by {
                if k < s.len() - 1 {
                    assert(s.drop_last()[k] == s[k]);
                }
            }
        }
    }
}

/// What role_index returns: an index holding the key, or none if no element does.
pub proof fn lemma_role_index(s: Seq<RoleModel>, key: u64)
    ensures
        role_index(s, key) matches Some(i) ==> 0 <= i < s.len() && s[i].id == key,
        role_index(s, key) is None ==> forall|k: int| 0 <= k < s.len() ==> #[trigger] s[k].id != key,
    decreases s.len(),
{
    if s.len() > 0 {
        lemma_role_index(s.drop_last(), key);
        if role_index(s, key) is None {
            assert forall|k: int| 0 <= k < s.len() implies #[trigger] s[k].id != key by {
                if k < s.len() - 1 {
                    assert(s.drop_last()[k] == s[k]);
                }
            }
        }
    }
}

/// What member_index returns: an index holding the key, or none if no element does.
pub proof fn lemma_member_index(s: Seq<MemberModel>, key: u64)
    ensures
        member_index(s, key) matches Some(i) ==> 0 <= i < s.len() && s[i].user == key,
        member_index(s, key) is None ==> forall|k: int| 0 <= k < s.len() ==> #[trigger] s[k].user != key,
    decreases s.len(),
{
    if s.len() > 0 {
        lemma_member_index(s.drop_last(), key);
        if member_index(s, key) is None {
            assert forall|k: int| 0 <= k < s.len() implies #[trigger] s[k].user != key by {
                if k < s.len() - 1 {
                    assert(s.drop_last()[k] == s[k]);
                }
            }
        }
    }
}

/// What voice_index returns: an index holding the key, or none if no element does.
pub proof fn lemma_voice_index(s: Seq<VoiceState>, key: u64)
    ensures
        voice_index(s, key) matches Some(i) ==> 0 <= i < s.len() && s[i].user == key,
        voice_index(s, key) is None ==> forall|k: int| 0 <= k < s.len() ==> #[trigger] s[k].user != key,
    decreases s.len(),
{
    if s.len() > 0 {
        lemma_voice_index(s.drop_last(), key);
        if voice_index(s, key) is None {
            assert forall|k: int| 0 <= k < s.len() implies #[trigger] s[k].user != key by {
                if k < s.len() - 1 {
                    assert(s.drop_last()[k] == s[k]);
                }
            }
        }
    }
}

/// Ids are never zero: Discord ids are non-zero snowflakes.
pub open spec fn channel_wf(c: ChannelModel) -> bool {
    &&& c.id != 0
    &&& forall|k: int| 0 <= k < c.overwrites.len() ==> #[trigger] c.overwrites[k].id != 0
}

/// Ids are never zero: Discord ids are non-zero snowflakes.
pub open spec fn member_wf(m: MemberModel) -> bool {
    &&& m.user != 0
    &&& forall|k: int| 0 <= k < m.roles.len() ==> #[trigger] m.roles[k] != 0
}

impl GuildModel {
    /// Every id that the snapshot holds is non-zero.
    pub open spec fn wf(self) -> bool {
        &&& self.id != 0
        &&& self.owner != 0
        &&& forall|k: int| 0 <= k < self.channels.len() ==> channel_wf(#[trigger] self.channels[k])
        &&& forall|k: int| 0 <= k < self.roles.len() ==> #[trigger] self.roles[k].id != 0
        &&& forall|k: int| 0 <= k < self.members.len() ==> member_wf(#[trigger] self.members[k])
    }
}

impl Guild {
    /// Whether the snapshot is well formed (every id non-zero).
    pub fn is_well_formed(&self) -> (r: bool)
        ensures
            r == self@.wf(),
    {
        if self.id == 0 || self.owner == 0 {
            return false;
        }
        let mut i: usize = 0;
        while i < self.channels.len()
            invariant
                i <= self.channels.len(),
                forall|k: int| 0 <= k < i ==> channel_wf(#[trigger] self@.channels[k]),
            decreases self.channels.len() - i,
        {
            let c = &self.channels[i];
            assert(self@.channels[i as int] == c@);
            if c.id == 0 {
                return false;
            }
            let mut j: usize = 0;
            while j < c.overwrites.len()
                invariant
                    j <= c.overwrites.len(),
                    i < self.channels.len(),
                    c@ == self@.channels[i as int],
                    forall|k: int| 0 <= k < j ==> #[trigger] c.overwrites@[k].id != 0,
                decreases c.overwrites.len() - j,
            {
                if c.overwrites[j].id == 0 {
                    assert(self@.channels[i as int].overwrites[j as int].id == 0);
                    assert(!channel_wf(self@.channels[i as int]));
                    return false;
                }
                j += 1;
            }
            assert(channel_wf(self@.channels[i as int]));
            i += 1;
        }
        let mut i: usize = 0;
        while i < self.roles.len()
            invariant
                i <= self.roles.len(),
                forall|k: int| 0 <= k < i ==> #[trigger] self@.roles[k].id != 0,
            decreases self.roles.len() - i,
        {
            assert(self@.roles[i as int] == self.roles@[i as int]@);
            if self.roles[i].id == 0 {
                assert(self@.roles[i as int].id == 0);
                return false;
            }
            i += 1;
        }
        let mut i: usize = 0;
        while i < self.members.len()
            invariant
                i <= self.members.len(),
                forall|k: int| 0 <= k < i ==> member_wf(#[trigger] self@.members[k]),
            decreases self.members.len() - i,
        {
            let m = &self.members[i];
            assert(self@.members[i as int] == m@);
            if m.user == 0 {
                assert(!member_wf(self@.members[i as int]));
                return false;
            }
            let mut j: usize = 0;
            while j < m.roles.len()
                invariant
                    j <= m.roles.len(),
                    i < self.members.len(),
                    m@ == self@.members[i as int],
                    forall|k: int| 0 <= k < j ==> #[trigger] m.roles@[k] != 0,
                decreases m.roles.len() - j,
            {
                if m.roles[j] == 0 {
                    assert(self@.members[i as int].roles[j as int] == 0);
                    assert(!member_wf(self@.members[i as int]));
                    return false;
                }
                j += 1;
            }
            assert(member_wf(self@.members[i as int]));
            i += 1;
        }
        true
    }

    /// Position of the channel with the given id.
    pub fn find_channel(&self, id: u64) -> (r: Option<usize>)
        ensures
            r matches Some(i) ==> channel_index(self@.channels, id) == Some(i as int),
            r is None ==> channel_index(self@.channels, id) is None,
    {
        let ghost s = self@.channels;
        let mut i: usize = self.channels.len();
        assert(s.subrange(0, i as int) =~= s);
        while i > 0
            invariant
                i <= self.channels.len(),
                s == self@.channels,
                channel_index(s, id) == channel_index(s.subrange(0, i as int), id),
            decreases i,
        {
            let ghost t = s.subrange(0, i as int);
            assert(t.drop_last() =~= s.subrange(0, i - 1));
            assert(s[i - 1] == self.channels@[i - 1]@);
            if self.channels[i - 1].id == id {
                return Some(i - 1);
            }
            i -= 1;
        }
        None
    }

    /// Position of the role with the given id.
    pub fn find_role(&self, id: u64) -> (r: Option<usize>)
        ensures
            r matches Some(i) ==> role_index(self@.roles, id) == Some(i as int),
            r is None ==> role_index(self@.roles, id) is None,
    {
        let ghost s = self@.roles;
        let mut i: usize = self.roles.len();
        assert(s.subrange(0, i as int) =~= s);
        while i > 0
            invariant
                i <= self.roles.len(),
                s == self@.roles,
                role_index(s, id) == role_index(s.subrange(0, i as int), id),
            decreases i,
        {
            let ghost t = s.subrange(0, i as int);
            assert(t.drop_last() =~= s.subrange(0, i - 1));
            assert(s[i - 1] == self.roles@[i - 1]@);
            if self.roles[i - 1].id == id {
                return Some(i - 1);
            }
            i -= 1;
        }
        None
    }

    /// Position of the member record of the given user.
    pub fn find_member(&self, user: u64) -> (r: Option<usize>)
        ensures
            r matches Some(i) ==> member_index(self@.members, user) == Some(i as int),
            r is None ==> member_index(self@.members, user) is None,
    {
        let ghost s = self@.members;
        let mut i: usize = self.members.len();
        assert(s.subrange(0, i as int) =~= s);
        while i > 0
            invariant
                i <= self.members.len(),
                s == self@.members,
                member_index(s, user) == member_index(s.subrange(0, i as int), user),
            decreases i,
        {
            let ghost t = s.subrange(0, i as int);
            assert(t.drop_last() =~= s.subrange(0, i - 1));
            assert(s[i - 1] == self.members@[i - 1]@);
            if self.members[i - 1].user == user {
                return Some(i - 1);
            }
            i -= 1;
        }
        None
    }

    /// Position of the voice state of the given user.
    pub fn find_voice_state(&self, user: u64) -> (r: Option<usize>)
        ensures
            r matches Some(i) ==> voice_index(self@.voice_states, user) == Some(i as int),
            r is None ==> voice_index(self@.voice_states, user) is None,
    {
        let ghost s = self@.voice_states;
        let mut i: usize = self.voice_states.len();
        assert(s.subrange(0, i as int) =~= s);
        while i > 0
            invariant
                i <= self.voice_states.len(),
                s == self@.voice_states,
                voice_index(s, user) == voice_index(s.subrange(0, i as int), user),
            decreases i,
        {
            let ghost t = s.subrange(0, i as int);
            assert(t.drop_last() =~= s.subrange(0, i - 1));
            if self.voice_states[i - 1].user == user {
                return Some(i - 1);
            }
            i -= 1;
        }
        None
    }
}

/// Whether `ids` holds `x`.
pub fn contains_id(ids: &Vec<u64>, x: u64) -> (r: bool)
    ensures
        r == ids@.contains(x),
{
    let mut i: usize = 0;
    while i < ids.len()
        invariant
            i <= ids.len(),
            forall|k: int| 0 <= k < i ==> ids@[k] != x,
        decreases ids.len() - i,
    {
        if ids[i] == x {
            assert(ids@[i as int] == x);
            return true;
        }
        i += 1;
    }
    false
}

} // verus!
