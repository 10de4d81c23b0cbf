//! The guild's configuration (role, channel and emote ids, embed colour,
//! page size, star threshold) and the vanity roles earned by all-time
//! minutes and by streak length.

use vstd::prelude::*;

verus! {

/// Colour of every embed the bot sends.
pub const EMBED_COLOR: u32 = 0xFDAC2E;

/// Entries shown on one page of a paginated list.
pub const TERMS_PER_PAGE: usize = 10;

/// Stars a message needs before it is copied to the star channel.
pub const MIN_STARS: u64 = 5;

/// Default look of the bot's embeds; the embed itself is built by the chat
/// layer with `EMBED_COLOR`.
pub struct BloomBotEmbed {}

/// Ids of the guild roles the bot checks or grants.
#[derive(Clone, Copy, Debug, PartialEq, Eq, Structural)]
pub struct Roles {
    pub welcome_team: u64,
    pub meditation_challenger: u64,
    pub meditation_challenger_365: u64,
    pub patreon: u64,
    pub kofi: u64,
    pub staff: u64,
}

impl Roles {
    /// The role ids of the guild the bot serves.
    pub fn configured() -> (r: Roles)
        ensures
            r.welcome_team == 828291690917265418,
            r.meditation_challenger == 796821826369617970,
            r.meditation_challenger_365 == 516750476268666880,
            r.patreon == 543900027928444935,
            r.kofi == 1083219974509826048,
            r.staff == 788760128010059786,
    {
        Roles {
            welcome_team: 828291690917265418,
            meditation_challenger: 796821826369617970,
            meditation_challenger_365: 516750476268666880,
            patreon: 543900027928444935,
            kofi: 1083219974509826048,
            staff: 788760128010059786,
        }
    }
}

/// Ids of the guild channels the bot posts to.
#[derive(Clone, Copy, Debug, PartialEq, Eq, Structural)]
pub struct Channels {
    pub welcome: u64,
    pub announcement: u64,
    pub logs: u64,
    pub bloomlogs: u64,
    pub starchannel: u64,
    pub reportchannel: u64,
    pub donators: u64,
    pub suggestion: u64,
}

impl Channels {
    /// The channel ids of the guild the bot serves.
    pub fn configured() -> (r: Channels)
        ensures
            r.welcome == 493402917001494539,
            r.announcement == 244917519477899264,
            r.logs == 441207765357035541,
            r.bloomlogs == 1161911290915209297,
            r.starchannel == 856865368098078720,
            r.reportchannel == 855894610001395743,
            r.donators == 551895169532952578,
            r.suggestion == 553676378621476887,
    {
        Channels {
            welcome: 493402917001494539,
            announcement: 244917519477899264,
            logs: 441207765357035541,
            bloomlogs: 1161911290915209297,
            starchannel: 856865368098078720,
            reportchannel: 855894610001395743,
            donators: 551895169532952578,
            suggestion: 553676378621476887,
        }
    }
}

/// The emotes the bot reacts to: the star, by its text, and the report
/// emote, by its id.
pub struct Emotes<'a> {
    pub star: &'a str,
    pub report: u64,
}

impl Emotes<'static> {
    /// The emotes of the guild the bot serves.
    pub fn configured() -> (r: Emotes<'static>)
        ensures
            r.star@ == "\u{2b50}"@,
            r.report == 852463521894629376,
    {
        Emotes { star: "\u{2b50}", report: 852463521894629376 }
    }
}

/// Roles earned by all-time meditation minutes, lowest first.
#[derive(Clone, Copy, Debug, PartialEq, Eq, Structural)]
pub enum TimeSumRoles {
    One,
    Two,
    Three,
    Four,
    Five,
    Six,
    Seven,
    Eight,
    Nine,
    Ten,
    Eleven,
    Twelve,
    Thirteen,
    Fourteen,
    Fifteen,
}

/// Position of a minutes role, from 0 for the lowest.
pub open spec fn time_sum_rank(r: TimeSumRoles) -> int {
    match r {
        TimeSumRoles::One => 0,
        TimeSumRoles::Two => 1,
        TimeSumRoles::Three => 2,
        TimeSumRoles::Four => 3,
        TimeSumRoles::Five => 4,
        TimeSumRoles::Six => 5,
        TimeSumRoles::Seven => 6,
        TimeSumRoles::Eight => 7,
        TimeSumRoles::Nine => 8,
        TimeSumRoles::Ten => 9,
        TimeSumRoles::Eleven => 10,
        TimeSumRoles::Twelve => 11,
        TimeSumRoles::Thirteen => 12,
        TimeSumRoles::Fourteen => 13,
        TimeSumRoles::Fifteen => 14,
    }
}

/// All-time minutes from which a minutes role is earned.
pub open spec fn time_sum_threshold(r: TimeSumRoles) -> int {
    match r {
        TimeSumRoles::One => 50,
        TimeSumRoles::Two => 100,
        TimeSumRoles::Three => 150,
        TimeSumRoles::Four => 250,
        TimeSumRoles::Five => 500,
        TimeSumRoles::Six => 1000,
        TimeSumRoles::Seven => 2000,
        TimeSumRoles::Eight => 5000,
        TimeSumRoles::Nine => 10000,
        TimeSumRoles::Ten => 20000,
        TimeSumRoles::Eleven => 50000,
        TimeSumRoles::Twelve => 100000,
        TimeSumRoles::Thirteen => 120000,
        TimeSumRoles::Fourteen => 150000,
        TimeSumRoles::Fifteen => 200000,
    }
}

/// Guild role id of a minutes role.
pub open spec fn time_sum_role_id(r: TimeSumRoles) -> u64 {
    match r {
        TimeSumRoles::One => 504641899890475018,
        TimeSumRoles::Two => 504641945596067851,
        TimeSumRoles::Three => 504642088760115241,
        TimeSumRoles::Four => 504641974486302751,
        TimeSumRoles::Five => 504642451898630164,
        TimeSumRoles::Six => 504642479459532810,
        TimeSumRoles::Seven => 504642975519866881,
        TimeSumRoles::Eight => 504643005479649280,
        TimeSumRoles::Nine => 504643037515874317,
        TimeSumRoles::Ten => 504645771464015893,
        TimeSumRoles::Eleven => 504645799821574144,
        TimeSumRoles::Twelve => 504645823888621568,
        TimeSumRoles::Thirteen => 1224667049175941120,
        TimeSumRoles::Fourteen => 1224671462657359972,
        TimeSumRoles::Fifteen => 1224678890161573969,
    }
}

impl TimeSumRoles {
    /// The guild role id of this role.
    pub fn to_role_id(&self) -> (id: u64)
        ensures
            id == time_sum_role_id(*self),
    {
        match self {
            TimeSumRoles::One => 504641899890475018,
            TimeSumRoles::Two => 504641945596067851,
            TimeSumRoles::Three => 504642088760115241,
            TimeSumRoles::Four => 504641974486302751,
            TimeSumRoles::Five => 504642451898630164,
            TimeSumRoles::Six => 504642479459532810,
            TimeSumRoles::Seven => 504642975519866881,
            TimeSumRoles::Eight => 504643005479649280,
            TimeSumRoles::Nine => 504643037515874317,
            TimeSumRoles::Ten => 504645771464015893,
            TimeSumRoles::Eleven => 504645799821574144,
            TimeSumRoles::Twelve => 504645823888621568,
            TimeSumRoles::Thirteen => 1224667049175941120,
            TimeSumRoles::Fourteen => 1224671462657359972,
            TimeSumRoles::Fifteen => 1224678890161573969,
        }
    }

    /// The minutes role whose guild role id is `id`, if any.
    pub fn from_role_id(id: u64) -> (r: Option<TimeSumRoles>)
        ensures
            match r {
                Some(x) => time_sum_role_id(x) == id,
                None => forall|x: TimeSumRoles| time_sum_role_id(x) != id,
            },
    {
        match id {
            504641899890475018 => Some(TimeSumRoles::One),
            504641945596067851 => Some(TimeSumRoles::Two),
            504642088760115241 => Some(TimeSumRoles::Three),
            504641974486302751 => Some(TimeSumRoles::Four),
            504642451898630164 => Some(TimeSumRoles::Five),
            504642479459532810 => Some(TimeSumRoles::Six),
            504642975519866881 => Some(TimeSumRoles::Seven),
            504643005479649280 => Some(TimeSumRoles::Eight),
            504643037515874317 => Some(TimeSumRoles::Nine),
            504645771464015893 => Some(TimeSumRoles::Ten),
            504645799821574144 => Some(TimeSumRoles::Eleven),
            504645823888621568 => Some(TimeSumRoles::Twelve),
            1224667049175941120 => Some(TimeSumRoles::Thirteen),
            1224671462657359972 => Some(TimeSumRoles::Fourteen),
            1224678890161573969 => Some(TimeSumRoles::Fifteen),
            _ => None,
        }
    }

    /// The highest minutes role earned with `sum` all-time minutes; `None`
    /// below the lowest threshold.
    pub fn from_sum(sum: i64) -> (r: Option<TimeSumRoles>)
        ensures
            match r {
                None => sum < 50,
                Some(x) => time_sum_threshold(x) <= sum && forall|y: TimeSumRoles|
                    time_sum_rank(y) > time_sum_rank(x) ==> sum < #[trigger] time_sum_threshold(y),
            },
    {
        if sum < 50 {
            None
        } else if sum < 100 {
            Some(TimeSumRoles::One)
        } else if sum < 150 {
            Some(TimeSumRoles::Two)
        } else if sum < 250 {
            Some(TimeSumRoles::Three)
        } else if sum < 500 {
            Some(TimeSumRoles::Four)
        } else if sum < 1000 {
            Some(TimeSumRoles::Five)
        } else if sum < 2000 {
            Some(TimeSumRoles::Six)
        } else if sum < 5000 {
            Some(TimeSumRoles::Seven)
        } else if sum < 10000 {
            Some(TimeSumRoles::Eight)
        } else if sum < 20000 {
            Some(TimeSumRoles::Nine)
        } else if sum < 50000 {
            Some(TimeSumRoles::Ten)
        } else if sum < 100000 {
            Some(TimeSumRoles::Eleven)
        } else if sum < 120000 {
            Some(TimeSumRoles::Twelve)
        } else if sum < 150000 {
            Some(TimeSumRoles::Thirteen)
        } else if sum < 200000 {
            Some(TimeSumRoles::Fourteen)
        } else {
            Some(TimeSumRoles::Fifteen)
        }
    }

    /// The member's roles (by id) that are minutes roles the guild has, in
    /// the member's order.
    pub fn get_users_current_roles(member_roles: &Vec<u64>, guild_roles: &Vec<u64>) -> (r: Vec<
        u64,
    >)
        ensures
            r@ == member_roles@.filter(
                |id: u64| is_time_sum_role_id(id) && guild_roles@.contains(id),
            ),
    {
        let ghost pred = |id: u64| is_time_sum_role_id(id) && guild_roles@.contains(id);
        let mut r: Vec<u64> = Vec::new();
        let mut i: usize = 0;
        while i < member_roles.len()
            invariant
                i <= member_roles@.len(),
                pred == (|id: u64| is_time_sum_role_id(id) && guild_roles@.contains(id)),
                r@ == member_roles@.subrange(0, i as int).filter(pred),
            decreases member_roles@.len() - i,
        {
            let user_role = member_roles[i];
            proof {
                assert(member_roles@.subrange(0, i + 1) =~= member_roles@.subrange(
                    0,
                    i as int,
                ).push(user_role));
                member_roles@.subrange(0, i as int).lemma_filter_push(user_role, pred);
            }
            match TimeSumRoles::from_role_id(user_role) {
                Some(role) => {
                    let id = role.to_role_id();
                    if contains_id(guild_roles, id) {
                        r.push(id);
                    }
                },
                None => {},
            }
            i = i + 1;
        }
        proof {
            assert(member_roles@.subrange(0, member_roles@.len() as int) =~= member_roles@);
        }
        r
    }
}

/// `id` is the guild role id of a minutes role.
pub open spec fn is_time_sum_role_id(id: u64) -> bool {
    exists|x: TimeSumRoles| time_sum_role_id(x) == id
}

/// Whether `id` is among `ids`.
fn contains_id(ids: &Vec<u64>, id: u64) -> (r: bool)
    ensures
        r == ids@.contains(id),
{
    let mut i: usize = 0;
    while i < ids.len()
        invariant
            i <= ids@.len(),
            forall|k: int| 0 <= k < i ==> ids@[k] != id,
        decreases ids@.len() - i,
    {
        if ids[i] == id {
            return true;
        }
        i = i + 1;
    }
    false
}

/// Roles earned by the length of the current streak, lowest first.
#[derive(Clone, Copy, Debug, PartialEq, Eq, Structural)]
pub enum StreakRoles {
    Egg,
    HatchingChick,
    BabyChick,
    Chicken,
    Dove,
    Owl,
    Eagle,
    Dragon,
    Alien,
    SpaceInvader,
}

/// Position of a streak role, from 0 for the lowest.
pub open spec fn streak_rank(r: StreakRoles) -> int {
    match r {
        StreakRoles::Egg => 0,
        StreakRoles::HatchingChick => 1,
        StreakRoles::BabyChick => 2,
        StreakRoles::Chicken => 3,
        StreakRoles::Dove => 4,
        StreakRoles::Owl => 5,
        StreakRoles::Eagle => 6,
        StreakRoles::Dragon => 7,
        StreakRoles::Alien => 8,
        StreakRoles::SpaceInvader => 9,
    }
}

/// Streak length in days from which a streak role is earned.
pub open spec fn streak_threshold(r: StreakRoles) -> int {
    match r {
        StreakRoles::Egg => 7,
        StreakRoles::HatchingChick => 14,
        StreakRoles::BabyChick => 28,
        StreakRoles::Chicken => 35,
        StreakRoles::Dove => 56,
        StreakRoles::Owl => 70,
        StreakRoles::Eagle => 140,
        StreakRoles::Dragon => 365,
        StreakRoles::Alien => 730,
        StreakRoles::SpaceInvader => 1825,
    }
}

/// Guild role id of a streak role.
pub open spec fn streak_role_id(r: StreakRoles) -> u64 {
    match r {
        StreakRoles::Egg => 857242224390832158,
        StreakRoles::HatchingChick => 857242222529347584,
        StreakRoles::BabyChick => 857242220675465227,
        StreakRoles::Chicken => 857242218695229450,
        StreakRoles::Dove => 857242216493219862,
        StreakRoles::Owl => 857242214588612629,
        StreakRoles::Eagle => 857242212991762463,
        StreakRoles::Dragon => 857242210302427186,
        StreakRoles::Alien => 857242155784863754,
        StreakRoles::SpaceInvader => 1226730813190836367,
    }
}

/// `id` is the guild role id of a streak role.
pub open spec fn is_streak_role_id(id: u64) -> bool {
    exists|x: StreakRoles| streak_role_id(x) == id
}

impl StreakRoles {
    /// The guild role id of this role.
    pub fn to_role_id(&self) -> (id: u64)
        ensures
            id == streak_role_id(*self),
    {
        match self {
            StreakRoles::Egg => 857242224390832158,
            StreakRoles::HatchingChick => 857242222529347584,
            StreakRoles::BabyChick => 857242220675465227,
            StreakRoles::Chicken => 857242218695229450,
            StreakRoles::Dove => 857242216493219862,
            StreakRoles::Owl => 857242214588612629,
            StreakRoles::Eagle => 857242212991762463,
            StreakRoles::Dragon => 857242210302427186,
            StreakRoles::Alien => 857242155784863754,
            StreakRoles::SpaceInvader => 1226730813190836367,
        }
    }

    /// The streak role whose guild role id is `id`, if any.
    pub fn from_role_id(id: u64) -> (r: Option<StreakRoles>)
        ensures
            match r {
                Some(x) => streak_role_id(x) == id,
                None => forall|x: StreakRoles| streak_role_id(x) != id,
            },
    {
        match id {
            857242224390832158 => Some(StreakRoles::Egg),
            857242222529347584 => Some(StreakRoles::HatchingChick),
            857242220675465227 => Some(StreakRoles::BabyChick),
            857242218695229450 => Some(StreakRoles::Chicken),
            857242216493219862 => Some(StreakRoles::Dove),
            857242214588612629 => Some(StreakRoles::Owl),
            857242212991762463 => Some(StreakRoles::Eagle),
            857242210302427186 => Some(StreakRoles::Dragon),
            857242155784863754 => Some(StreakRoles::Alien),
            1226730813190836367 => Some(StreakRoles::SpaceInvader),
            _ => None,
        }
    }

    /// The highest streak role earned with a streak of `streak` days;
    /// `None` below the lowest threshold.
    pub fn from_streak(streak: u64) -> (r: Option<StreakRoles>)
        ensures
            match r {
                None => streak < 7,
                Some(x) => streak_threshold(x) <= streak && forall|y: StreakRoles|
                    streak_rank(y) > streak_rank(x) ==> streak < #[trigger] streak_threshold(y),
            },
    {
        if streak < 7 {
            None
        } else if streak < 14 {
            Some(StreakRoles::Egg)
        } else if streak < 28 {
            Some(StreakRoles::HatchingChick)
        } else if streak < 35 {
            Some(StreakRoles::BabyChick)
        } else if streak < 56 {
            Some(StreakRoles::Chicken)
        } else if streak < 70 {
            Some(StreakRoles::Dove)
        } else if streak < 140 {
            Some(StreakRoles::Owl)
        } else if streak < 365 {
            Some(StreakRoles::Eagle)
        } else if streak < 730 {
            Some(StreakRoles::Dragon)
        } else if streak < 1825 {
            Some(StreakRoles::Alien)
        } else {
            Some(StreakRoles::SpaceInvader)
        }
    }

    /// The member's roles (by id) that are streak roles the guild has, in
    /// the member's order.
    pub fn get_users_current_roles(member_roles: &Vec<u64>, guild_roles: &Vec<u64>) -> (r: Vec<
        u64,
    >)
        ensures
            r@ == member_roles@.filter(
                |id: u64| is_streak_role_id(id) && guild_roles@.contains(id),
            ),
    {
        let ghost pred = |id: u64| is_streak_role_id(id) && guild_roles@.contains(id);
        let mut r: Vec<u64> = Vec::new();
        let mut i: usize = 0;
        while i < member_roles.len()
            invariant
                i <= member_roles@.len(),
                pred == (|id: u64| is_streak_role_id(id) && guild_roles@.contains(id)),
                r@ == member_roles@.subrange(0, i as int).filter(pred),
            decreases member_roles@.len() - i,
        {
            let user_role = member_roles[i];
            proof {
                assert(member_roles@.subrange(0, i + 1) =~= member_roles@.subrange(
                    0,
                    i as int,
                ).push(user_role));
                member_roles@.subrange(0, i as int).lemma_filter_push(user_role, pred);
            }
            match StreakRoles::from_role_id(user_role) {
                Some(role) => {
                    let id = role.to_role_id();
                    if contains_id(guild_roles, id) {
                        r.push(id);
                    }
                },
                None => {},
            }
            i = i + 1;
        }
        proof {
            assert(member_roles@.subrange(0, member_roles@.len() as int) =~= member_roles@);
        }
        r
    }
}

/// The role changes that follow a new total or streak: when a role is
/// earned that the member does not hold yet, every role of the same kind
/// they hold goes and the earned one is added; otherwise nothing changes.
#[derive(Debug)]
pub struct RoleUpdate {
    pub remove: Vec<u64>,
    pub add: Option<u64>,
}

/// Plans the role changes for a member holding the roles `current` (all of
/// one kind) who has earned the role with id `earned`, if any.
pub fn plan_role_update(current: &Vec<u64>, earned: Option<u64>) -> (r: RoleUpdate)
    ensures
        match earned {
            Some(id) => if current@.contains(id) {
                r.remove@.len() == 0 && r.add == None::<u64>
            } else {
                r.remove@ == current@ && r.add == Some(id)
            },
            None => r.remove@.len() == 0 && r.add == None::<u64>,
        },
{
    match earned {
        Some(id) => {
            if contains_id(current, id) {
                RoleUpdate { remove: Vec::new(), add: None }
            } else {
                RoleUpdate { remove: current.clone(), add: Some(id) }
            }
        },
        None => RoleUpdate { remove: Vec::new(), add: None },
    }
}

/// The meditation challenges a member can join.
#[derive(Clone, Copy, Debug, PartialEq, Eq, Structural)]
pub enum ChallengeChoices {
    Monthly,
    YearRound,
}

impl ChallengeChoices {
    /// The role that marks the participants of the challenge.
    pub fn role_id(&self, roles: &Roles) -> (id: u64)
        ensures
            id == (match self {
                ChallengeChoices::Monthly => roles.meditation_challenger,
                ChallengeChoices::YearRound => roles.meditation_challenger_365,
            }),
    {
        match self {
            ChallengeChoices::Monthly => roles.meditation_challenger,
            ChallengeChoices::YearRound => roles.meditation_challenger_365,
        }
    }
}

/// What a change of a member's state means to the guild.
#[derive(Clone, Copy, Debug, PartialEq, Eq, Structural)]
pub enum UpdateType {
    BecamePatreonDonator,
    BecameKofiDonator,
    StoppedPending,
}

/// Classifies a member update from the member's roles and pending flag
/// before and after: gaining the Patreon role comes first, then gaining the
/// Ko-fi role, then passing membership screening.
pub fn member_update_type(
    old_roles: &Vec<u64>,
    new_roles: &Vec<u64>,
    old_pending: bool,
    new_pending: bool,
    roles: &Roles,
) -> (r: Option<UpdateType>)
    ensures
        r == (if !old_roles@.contains(roles.patreon) && new_roles@.contains(roles.patreon) {
            Some(UpdateType::BecamePatreonDonator)
        } else if !old_roles@.contains(roles.kofi) && new_roles@.contains(roles.kofi) {
            Some(UpdateType::BecameKofiDonator)
        } else if old_pending && !new_pending {
            Some(UpdateType::StoppedPending)
        } else {
            None
        }),
{
    if !contains_id(old_roles, roles.patreon) && contains_id(new_roles, roles.patreon) {
        Some(UpdateType::BecamePatreonDonator)
    } else if !contains_id(old_roles, roles.kofi) && contains_id(new_roles, roles.kofi) {
        Some(UpdateType::BecameKofiDonator)
    } else if old_pending && !new_pending {
        Some(UpdateType::StoppedPending)
    } else {
        None
    }
}

/// Whether a message with `star_count` stars belongs on the star board.
pub fn reaches_star_board(star_count: u64) -> (r: bool)
    ensures
        r == (star_count >= MIN_STARS),
{
    star_count >= MIN_STARS
}

} // verus!
