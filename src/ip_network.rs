//! The IPv4 network addon: `get address|netmask|network` on a network
//! given as `<ip>/<cidr-or-mask>` or as `<ip> <cidr-or-mask>`.

use vstd::prelude::*;
use crate::command::{
    call_help, commands_view, help_requested, join_args, joined, str_eq, strings_view, CommandInputsHelp,
    MyToolsAddon, MyToolsAddonCommand, ParseOutcome,
};
use crate::error::MyToolsError;
use crate::netspec::{
    arg_to_ipv4network, dotted_quad, format_ipv4, network_outcome, outcome_detail, prefix_mask,
    NetworkOutcome, NetworkSpec,
};

verus! {

/// The inputs that the query `get <w>` accepts.
pub open spec fn query_input_seq(w: Seq<char>) -> Seq<Seq<char>> {
    seq![
        "get "@ + w + " <ip/cidr>"@,
        "get "@ + w + " <ip/mask>"@,
        "get "@ + w + " <ip> <cidr>"@,
        "get "@ + w + " <ip> <mask>"@,
    ]
}

/// The inputs that the query `get <word>` accepts.
fn query_inputs(word: &str) -> (r: Vec<String>)
    ensures
        strings_view(r@) == query_input_seq(word@),
{
    let w = String::from_str("get ").concat(word);
    let mut inputs: Vec<String> = Vec::new();
    inputs.push(w.clone().concat(" <ip/cidr>"));
    inputs.push(w.clone().concat(" <ip/mask>"));
    inputs.push(w.clone().concat(" <ip> <cidr>"));
    inputs.push(w.concat(" <ip> <mask>"));
    assert(strings_view(inputs@) =~= query_input_seq(word@));
    inputs
}

/// Prints the address of a network.
pub struct GetIpAddressCommand {
    pub ip_object: NetworkSpec,
}

impl MyToolsAddonCommand for GetIpAddressCommand {
    open spec fn executes_to(&self, r: Result<String, MyToolsError>) -> bool {
        r matches Ok(s) && dotted_quad(s@) == Some(self.ip_object@.0)
    }

    fn execute(&self) -> (r: Result<String, MyToolsError>) {
        Ok(format_ipv4(self.ip_object.address()))
    }

    open spec fn inputs() -> Seq<Seq<char>> {
        query_input_seq("address"@)
    }

    open spec fn help() -> Seq<char> {
        "Get the IP address for a given IP object"@
    }

    fn get_command_input() -> (r: Vec<String>) {
        query_inputs("address")
    }

    fn get_command_help() -> (r: String) {
        String::from_str("Get the IP address for a given IP object")
    }
}

/// Prints the netmask of a network.
pub struct GetIpNetmaskCommand {
    pub ip_object: NetworkSpec,
}

impl MyToolsAddonCommand for GetIpNetmaskCommand {
    open spec fn executes_to(&self, r: Result<String, MyToolsError>) -> bool {
        r matches Ok(s) && dotted_quad(s@) == Some(prefix_mask(self.ip_object@.1))
    }

    fn execute(&self) -> (r: Result<String, MyToolsError>) {
        Ok(format_ipv4(self.ip_object.mask()))
    }

    open spec fn inputs() -> Seq<Seq<char>> {
        query_input_seq("netmask"@)
    }

    open spec fn help() -> Seq<char> {
        "Get the IP netmask for a given IP object"@
    }

    fn get_command_input() -> (r: Vec<String>) {
        query_inputs("netmask")
    }

    fn get_command_help() -> (r: String) {
        String::from_str("Get the IP netmask for a given IP object")
    }
}

/// Prints the network address of a network.
pub struct GetIpNetworkCommand {
    pub ip_object: NetworkSpec,
}

impl MyToolsAddonCommand for GetIpNetworkCommand {
    open spec fn executes_to(&self, r: Result<String, MyToolsError>) -> bool {
        r matches Ok(s) && dotted_quad(s@) == Some(self.ip_object@.0 & prefix_mask(self.ip_object@.1))
    }

    fn execute(&self) -> (r: Result<String, MyToolsError>) {
        Ok(format_ipv4(self.ip_object.network_address()))
    }

    open spec fn inputs() -> Seq<Seq<char>> {
        query_input_seq("network"@)
    }

    open spec fn help() -> Seq<char> {
        "Get the IP network address for a given IP object"@
    }

    fn get_command_input() -> (r: Vec<String>) {
        query_inputs("network")
    }

    fn get_command_help() -> (r: String) {
        String::from_str("Get the IP network address for a given IP object")
    }
}

/// A command of the IPv4 network addon.
pub enum IpNetworkCommand {
    Address(GetIpAddressCommand),
    Netmask(GetIpNetmaskCommand),
    Network(GetIpNetworkCommand),
}

impl IpNetworkCommand {
    /// The word after `get` that selects this command.
    pub open spec fn word(&self) -> Seq<char> {
        match self {
            IpNetworkCommand::Address(_) => "address"@,
            IpNetworkCommand::Netmask(_) => "netmask"@,
            IpNetworkCommand::Network(_) => "network"@,
        }
    }

    /// The network that the command works on.
    pub open spec fn network(&self) -> NetworkSpec {
        match self {
            IpNetworkCommand::Address(c) => c.ip_object,
            IpNetworkCommand::Netmask(c) => c.ip_object,
            IpNetworkCommand::Network(c) => c.ip_object,
        }
    }
}

impl MyToolsAddonCommand for IpNetworkCommand {
    open spec fn executes_to(&self, r: Result<String, MyToolsError>) -> bool {
        match self {
            IpNetworkCommand::Address(c) => c.executes_to(r),
            IpNetworkCommand::Netmask(c) => c.executes_to(r),
            IpNetworkCommand::Network(c) => c.executes_to(r),
        }
    }

    fn execute(&self) -> (r: Result<String, MyToolsError>) {
        match self {
            IpNetworkCommand::Address(c) => c.execute(),
            IpNetworkCommand::Netmask(c) => c.execute(),
            IpNetworkCommand::Network(c) => c.execute(),
        }
    }

    open spec fn inputs() -> Seq<Seq<char>> {
        query_input_seq("address"@) + query_input_seq("netmask"@) + query_input_seq("network"@)
    }

    open spec fn help() -> Seq<char> {
        "Get the address, netmask or network address for a given IP object"@
    }

    fn get_command_input() -> (r: Vec<String>) {
        let mut v = query_inputs("address");
        let mut m = query_inputs("netmask");
        let mut n = query_inputs("network");
        let ghost (a, b, c) = (v@, m@, n@);
        v.append(&mut m);
        v.append(&mut n);
        assert(strings_view(v@) =~= strings_view(a) + strings_view(b) + strings_view(c));
        v
    }

    fn get_command_help() -> (r: String) {
        String::from_str("Get the address, netmask or network address for a given IP object")
    }
}

/// The arguments name one of the three queries: `get`, a query word, then
/// one or two network arguments.
pub open spec fn is_query(args: Seq<Seq<char>>) -> bool {
    &&& args.len() == 3 || args.len() == 4
    &&& args[0] == "get"@
    &&& args[1] == "address"@ || args[1] == "netmask"@ || args[1] == "network"@
}

/// The outcome of parsing the network arguments of a query.
pub open spec fn query_network(args: Seq<Seq<char>>) -> NetworkOutcome {
    network_outcome(
        args[2],
        if args.len() == 4 {
            Some(args[3])
        } else {
            None
        },
    )
}

/// The IPv4 network addon, selected by the keyword `ipnet`.
pub struct IpNetworkAddon;

impl MyToolsAddon for IpNetworkAddon {
    type Command = IpNetworkCommand;

    open spec fn keyword(&self) -> Seq<char> {
        "ipnet"@
    }

    /// A query whose network arguments parse gives its command; one whose
    /// network arguments are refused gives the parser's error; anything
    /// else is an invalid command.
    open spec fn parses_to(
        &self,
        args: Seq<Seq<char>>,
        r: Result<ParseOutcome<IpNetworkCommand>, MyToolsError>,
    ) -> bool {
        if help_requested(args) {
            r matches Ok(ParseOutcome::HelpRequested)
        } else if is_query(args) {
            match query_network(args) {
                NetworkOutcome::Parsed(a, p) => r matches Ok(ParseOutcome::Command(c)) && c.word()
                    == args[1] && c.network()@ == (a, p),
                o => r matches Err(MyToolsError::ParseCommandError(m)) && m@ == outcome_detail(o),
            }
        } else {
            r matches Err(MyToolsError::InvalidCommand(m)) && m@ == joined(args, " "@)
        }
    }

    /// The address, netmask and network address queries, in that order.
    open spec fn commands(&self) -> Seq<(Seq<Seq<char>>, Seq<char>)> {
        seq![
            (
                <GetIpAddressCommand as MyToolsAddonCommand>::inputs(),
                <GetIpAddressCommand as MyToolsAddonCommand>::help(),
            ),
            (
                <GetIpNetmaskCommand as MyToolsAddonCommand>::inputs(),
                <GetIpNetmaskCommand as MyToolsAddonCommand>::help(),
            ),
            (
                <GetIpNetworkCommand as MyToolsAddonCommand>::inputs(),
                <GetIpNetworkCommand as MyToolsAddonCommand>::help(),
            ),
        ]
    }

    fn get_keyword(&self) -> (r: &'static str) {
        "ipnet"
    }

    fn get_list_commands(&self) -> (r: Vec<CommandInputsHelp>) {
        let mut cmds: Vec<CommandInputsHelp> = Vec::new();
        cmds.push(
            CommandInputsHelp {
                inputs_msg: GetIpAddressCommand::get_command_input(),
                help_msg: GetIpAddressCommand::get_command_help(),
            },
        );
        cmds.push(
            CommandInputsHelp {
                inputs_msg: GetIpNetmaskCommand::get_command_input(),
                help_msg: GetIpNetmaskCommand::get_command_help(),
            },
        );
        cmds.push(
            CommandInputsHelp {
                inputs_msg: GetIpNetworkCommand::get_command_input(),
                help_msg: GetIpNetworkCommand::get_command_help(),
            },
        );
        assert(commands_view(cmds@) =~= self.commands());
        cmds
    }

    fn parse(&self, args: &[String]) -> (r: Result<ParseOutcome<IpNetworkCommand>, MyToolsError>) {
        let ghost v = strings_view(args@);
        if call_help(args) {
            return Ok(ParseOutcome::HelpRequested);
        }
        let n = args.len();
        if (n == 3 || n == 4) && str_eq(args[0].as_str(), "get") {
            let word = args[1].as_str();
            let is_address = str_eq(word, "address");
            let is_netmask = str_eq(word, "netmask");
            let is_network = str_eq(word, "network");
            if is_address || is_netmask || is_network {
                let arg2 = if n == 4 {
                    Some(args[3].as_str())
                } else {
                    None
                };
                proof {
                    assert(v[2] == args@[2]@);
                    assert(n == 4 ==> v[3] == args@[3]@);
                }
                let ip_object = match arg_to_ipv4network(args[2].as_str(), arg2) {
                    Ok(ip_object) => ip_object,
                    Err(e) => {
                        return Err(e);
                    },
                };
                let cmd = if is_address {
                    IpNetworkCommand::Address(GetIpAddressCommand { ip_object })
                } else if is_netmask {
                    IpNetworkCommand::Netmask(GetIpNetmaskCommand { ip_object })
                } else {
                    IpNetworkCommand::Network(GetIpNetworkCommand { ip_object })
                };
                return Ok(ParseOutcome::Command(cmd));
            }
        }
        Err(MyToolsError::InvalidCommand(join_args(args, " ")))
    }
}

} // verus!
