# netbox

The logic of a minimal rtnetlink command line tool, verified with Verus.

An operation is a conversation with the kernel. `net` gives the first question of each
operation, `step` takes each answer and gives the next question or the end, and `course` states
what an operation comes to over all answers. The modules around them read arguments and
addresses (`args`, `mac`, `ip`, `v4`, `v6`, `number`, `text`), build the changes that are asked
for (`change`, `message`), make rows of what the kernel lists (`links`, `addresses`,
`neighbours`, `rules`, `rows`), watch the host's addresses (`monitor`), create TAP devices
(`tap`) and put results in words (`report`, `error`). `outside` and one item of `text` hold what
is taken on trust from outside crates and the standard library.

`app/` holds the program: its command line, the netlink connection and the TUN control device.
It asks what the library wants asked and hands back the answers.
