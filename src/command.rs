use vstd::prelude::*;

verus! {

/// Who a move command applies to.
#[derive(Clone, Debug)]
pub enum MemberTarget {
    /// A member already known by identifier (the sender of a chat command).
    Id(u64),
    /// A member to be looked up by name.
    Named(String),
}

/// A structured command, consumed by exactly one executor call.
#[derive(Clone, Debug)]
pub enum ControlCommand {
    MoveToRoom { member: MemberTarget, room_name: String },
    SetMute { room_name: String, muted: bool },
}

/// The room that a control-channel line stands for, if the line is a word
/// of the vocabulary.
pub open spec fn control_room(line: Seq<char>) -> Option<Seq<char>> {
    if line == "afk"@ {
        Some("AFK"@)
    } else if line == "core"@ {
        Some("Core"@)
    } else {
        None
    }
}

/// `c` moves the member called `member` to the room called `room`.
pub open spec fn is_named_move(c: ControlCommand, member: Seq<char>, room: Seq<char>) -> bool {
    match c {
        ControlCommand::MoveToRoom { member: MemberTarget::Named(n), room_name } => n@ == member
            && room_name@ == room,
        _ => false,
    }
}

/// `c` moves the member with identifier `member` to the room called `room`.
pub open spec fn is_id_move(c: ControlCommand, member: u64, room: Seq<char>) -> bool {
    match c {
        ControlCommand::MoveToRoom { member: MemberTarget::Id(id), room_name } => id == member
            && room_name@ == room,
        _ => false,
    }
}

/// `c` sets the mute state of the room called `room` to `muted`.
pub open spec fn is_room_mute(c: ControlCommand, room: Seq<char>, muted: bool) -> bool {
    match c {
        ControlCommand::SetMute { room_name, muted: m } => room_name@ == room && m == muted,
        _ => false,
    }
}

/// The words of `args` joined by single spaces.
pub open spec fn joined(args: Seq<Seq<char>>) -> Seq<char>
    decreases args.len(),
{
    if args.len() == 0 {
        Seq::empty()
    } else if args.len() == 1 {
        args[0]
    } else {
        joined(args.drop_last()) + " "@ + args.last()
    }
}

pub open spec fn arg_views(args: Seq<String>) -> Seq<Seq<char>> {
    args.map_values(|a: String| a@)
}

/// Parses one line of the control channel; `identity` is the member that
/// control-channel commands act on.
pub fn parse_control_line(line: &String, identity: &String) -> (r: Option<ControlCommand>)
    ensures
        match control_room(line@) {
            Some(room) => r matches Some(c) && is_named_move(c, identity@, room),
            None => r is None,
        },
{
    let afk = String::from_str("afk");
    let core = String::from_str("core");
    if *line == afk {
        let room = String::from_str("AFK");
        proof {
            reveal_strlit("afk");
            reveal_strlit("AFK");
        }
        Some(ControlCommand::MoveToRoom { member: MemberTarget::Named(identity.clone()), room_name: room })
    } else if *line == core {
        let room = String::from_str("Core");
        proof {
            reveal_strlit("afk");
            reveal_strlit("core");
            reveal_strlit("Core");
        }
        Some(ControlCommand::MoveToRoom { member: MemberTarget::Named(identity.clone()), room_name: room })
    } else {
        None
    }
}

/// Parses the arguments of `mva <room> [member]`, sent by the member `sender`.
pub fn parse_mva(args: &Vec<String>, sender: u64) -> (r: Option<ControlCommand>)
    ensures
        args@.len() == 0 ==> r is None,
        args@.len() == 1 ==> (r matches Some(c) && is_id_move(c, sender, args@[0]@)),
        args@.len() >= 2 ==> (r matches Some(c) && is_named_move(c, args@[1]@, args@[0]@)),
{
    if args.len() == 0 {
        None
    } else if args.len() == 1 {
        Some(ControlCommand::MoveToRoom { member: MemberTarget::Id(sender), room_name: args[0].clone() })
    } else {
        Some(
            ControlCommand::MoveToRoom {
                member: MemberTarget::Named(args[1].clone()),
                room_name: args[0].clone(),
            },
        )
    }
}

/// Joins words with single spaces.
pub fn join_args(args: &Vec<String>) -> (r: String)
    ensures
        r@ == joined(arg_views(args@)),
{
    let mut r = String::new();
    let mut i: usize = 0;
    while i < args.len()
        invariant
            i <= args.len(),
            r@ == joined(arg_views(args@.subrange(0, i as int))),
        decreases args.len() - i,
    {
        proof {
            let pre = arg_views(args@.subrange(0, i + 1));
            assert(pre.drop_last() =~= arg_views(args@.subrange(0, i as int)));
            assert(pre.last() == args@[i as int]@);
            reveal_strlit(" ");
        }
        if i > 0 {
            r.append(" ");
        }
        r.append(args[i].as_str());
        i = i + 1;
    }
    assert(args@.subrange(0, args.len() as int) =~= args@);
    r
}

/// Parses the arguments of `mc <room...>` (`muted`) or `umc <room...>`
/// (not `muted`); the room name is all the arguments joined by spaces.
pub fn parse_room_mute(args: &Vec<String>, muted: bool) -> (r: Option<ControlCommand>)
    ensures
        args@.len() == 0 ==> r is None,
        args@.len() > 0 ==> (r matches Some(c) && is_room_mute(
            c,
            joined(arg_views(args@)),
            muted,
        )),
{
    if args.len() == 0 {
        None
    } else {
        Some(ControlCommand::SetMute { room_name: join_args(args), muted })
    }
}

/// `prefix` begins `s`.
pub open spec fn has_prefix(s: Seq<char>, prefix: Seq<char>) -> bool {
    prefix.len() <= s.len() && s.subrange(0, prefix.len() as int) == prefix
}

/// Whether `prefix` begins `s`.
pub fn starts_with(s: &str, prefix: &str) -> (r: bool)
    ensures
        r == has_prefix(s@, prefix@),
{
    let n = prefix.unicode_len();
    if n > s.unicode_len() {
        return false;
    }
    let mut i: usize = 0;
    while i < n
        invariant
            n == prefix@.len(),
            n <= s@.len(),
            i <= n,
            forall|j: int| 0 <= j < i ==> s@[j] == prefix@[j],
        decreases n - i,
    {
        if s.get_char(i) != prefix.get_char(i) {
            assert(s@.subrange(0, n as int)[i as int] != prefix@[i as int]);
            return false;
        }
        i = i + 1;
    }
    assert(s@.subrange(0, n as int) =~= prefix@);
    true
}

/// The reply to a chat message: `Pong!` to one that begins with `!ping`.
pub fn ping_reply(content: &String) -> (r: Option<String>)
    ensures
        match r {
            Some(reply) => has_prefix(content@, "!ping"@) && reply@ == "Pong!"@,
            None => !has_prefix(content@, "!ping"@),
        },
{
    if starts_with(content.as_str(), "!ping") {
        Some(String::from_str("Pong!"))
    } else {
        None
    }
}

} // verus!
