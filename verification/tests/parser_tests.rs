use ssh_gateway::commands::completion::{
    completion_response, parse_completions, plan_completion, CompletionPlan,
};
use ssh_gateway::commands::disk::{disk_usage_command, disk_usage_response, parse_disks};
use ssh_gateway::commands::network::{
    connections_command, connections_response, network_stats_command, network_stats_response,
    parse_connections, parse_interfaces, parse_socket_stats, socket_stats_command,
    socket_stats_response,
};
use ssh_gateway::commands::probe::{
    bandwidth_command, bandwidth_samples, latency_command, latency_reading, unreachable_text,
    unreadable_text, BandwidthSample, LatencyReading,
};
use ssh_gateway::commands::process::{parse_processes, processes_command, processes_response};
use ssh_gateway::commands::system::{
    architecture_command, cpu_stats_command, hostname_command, kernel_command,
    load_average_command, memory_disk_command, os_command, parse_cores, parse_cpu_texts,
    parse_memory,
    parse_root_disk, parse_swap, parse_uptime, system_info_field, system_info_response,
    trimmed_output,
};
use ssh_gateway::commands::{
    DiskInfo, MemoryStats, NetworkConnection, NetworkInterface, NetworkSocketStats, ProcessInfo,
    TabCompletionRequest,
};
use ssh_gateway::error::SshError;

fn failed() -> Result<String, SshError> {
    Err(SshError::CommandFailed { code: Some(1) })
}

#[test]
fn processes_are_read_from_ps() {
    let output = "USER         PID %CPU %MEM    VSZ   RSS TTY      STAT START   TIME COMMAND\n\
                  root           1  0.0  0.1 168140 11788 ?        Ss   10:00   0:01 /sbin/init splash\n\
                  short line\n\
                  www-data     812  1.5  2.0  55180  1234 ?        S    10:01   0:00 nginx:   worker   process\n\
                  \n\
                  u 2 0.1 0.2 3 4 ? R 10:02 0:00 ps\n";
    let processes = parse_processes(output);
    assert_eq!(
        processes,
        vec![
            ProcessInfo {
                user: "root".to_string(),
                pid: "1".to_string(),
                cpu: "0.0".to_string(),
                mem: "0.1".to_string(),
                command: "/sbin/init splash".to_string(),
            },
            ProcessInfo {
                user: "www-data".to_string(),
                pid: "812".to_string(),
                cpu: "1.5".to_string(),
                mem: "2.0".to_string(),
                command: "nginx: worker process".to_string(),
            },
            ProcessInfo {
                user: "u".to_string(),
                pid: "2".to_string(),
                cpu: "0.1".to_string(),
                mem: "0.2".to_string(),
                command: "ps".to_string(),
            },
        ]
    );
}

#[test]
fn the_header_of_ps_is_never_a_process() {
    assert!(parse_processes("").is_empty());
    assert!(parse_processes("a b c d e f g h i j k l").is_empty());
    assert_eq!(parse_processes("header\na b c d e f g h i j k l").len(), 1);
}

#[test]
fn processes_are_sorted_by_cpu_unless_memory_is_asked_for() {
    assert_eq!(processes_command(None), "ps aux --sort=-%cpu | head -50");
    assert_eq!(processes_command(Some("cpu")), "ps aux --sort=-%cpu | head -50");
    assert_eq!(processes_command(Some("mem")), "ps aux --sort=-%mem | head -50");
    assert_eq!(processes_command(Some("memory")), "ps aux --sort=-%cpu | head -50");
    assert_eq!(processes_command(Some("")), "ps aux --sort=-%cpu | head -50");
}

#[test]
fn the_answer_for_processes() {
    let ok = processes_response(Ok("h\nu 2 0.1 0.2 3 4 ? R 10:02 0:00 ps".to_string()));
    assert!(ok.success);
    assert_eq!(ok.processes.map(|p| p.len()), Some(1));
    assert_eq!(ok.error, None);
    let err = processes_response(failed());
    assert!(!err.success);
    assert_eq!(err.processes, None);
    assert_eq!(err.error, Some("Command failed with code: Some(1)".to_string()));
}

#[test]
fn socket_counts_are_read_from_ss() {
    let output = "Total: 187\nTCP:   45 (estab 10, closed 5, orphaned 0, timewait 20)\n\n\
                  Transport Total     IP        IPv6\nRAW\t  1         0         1\n\
                  UDP:\t  8         5         3\n---SYNRECV---\n3\n";
    assert_eq!(
        parse_socket_stats(output),
        NetworkSocketStats {
            total: 187,
            tcp_total: 45,
            tcp_established: 10,
            tcp_timewait: 20,
            tcp_synrecv: 3,
            udp_total: 8,
        }
    );
}

#[test]
fn socket_counts_fall_back_to_zero() {
    let zero = NetworkSocketStats {
        total: 0,
        tcp_total: 0,
        tcp_established: 0,
        tcp_timewait: 0,
        tcp_synrecv: 0,
        udp_total: 0,
    };
    assert_eq!(parse_socket_stats(""), zero);
    assert_eq!(parse_socket_stats("Total: many\nTCP: x (estab y, timewait z)\nUDP:"), zero);
    assert_eq!(parse_socket_stats("---SYNRECV---\nnone"), zero);
    assert_eq!(
        parse_socket_stats("  Total: 5 \n TCP: 4 (estab 3)\n---SYNRECV---\n 2 \n---SYNRECV---\n9"),
        NetworkSocketStats { total: 5, tcp_total: 4, tcp_established: 3, tcp_synrecv: 2, ..zero }
    );
    assert_eq!(
        parse_socket_stats("TCP: 4 (timewait 7)\nTCP: 5 (estab  6 , closed 1)"),
        NetworkSocketStats { tcp_total: 5, tcp_established: 6, tcp_timewait: 7, ..zero }
    );
    assert_eq!(
        parse_socket_stats("Total: 1\nTotal: 4294967296"),
        NetworkSocketStats { total: 0, ..zero }
    );
    assert_eq!(parse_socket_stats("Totally: 1\nxTotal: 2"), zero);
}

#[test]
fn the_answer_for_socket_counts() {
    let ok = socket_stats_response(Ok("Total: 2".to_string()));
    assert!(ok.success);
    assert_eq!(ok.stats.map(|s| s.total), Some(2));
    let err = socket_stats_response(failed());
    assert!(!err.success);
    assert_eq!(err.stats, None);
    assert!(err.error.is_some());
}

#[test]
fn interfaces_are_read_from_the_counters() {
    let output = "eth0,1000,2000,10,20\n\nwlan0,5,6,7,8\nbad,1,2,3\nbad,1,2,3,4,5\n\
                  bad,1,x,3,4\nspaced, 1,2,3,4\nbig,18446744073709551615,0,0,0\ntoo,18446744073709551616,0,0,0\n";
    assert_eq!(
        parse_interfaces(output),
        vec![
            NetworkInterface {
                name: "eth0".to_string(),
                rx_bytes: 1000,
                tx_bytes: 2000,
                rx_packets: 10,
                tx_packets: 20,
            },
            NetworkInterface {
                name: "wlan0".to_string(),
                rx_bytes: 5,
                tx_bytes: 6,
                rx_packets: 7,
                tx_packets: 8,
            },
            NetworkInterface {
                name: "big".to_string(),
                rx_bytes: u64::MAX,
                tx_bytes: 0,
                rx_packets: 0,
                tx_packets: 0,
            },
        ]
    );
    let err = network_stats_response(failed());
    assert!(!err.success && err.interfaces.is_empty() && err.error.is_some());
    let ok = network_stats_response(Ok("lo,1,2,3,4".to_string()));
    assert!(ok.success && ok.interfaces.len() == 1 && ok.error.is_none());
}

#[test]
fn connections_are_read_from_ss() {
    let output = "tcp   ESTAB 0      0      192.168.1.5:22    192.168.1.9:50514 users:((\"sshd\",pid=1,fd=4))\n\
                  udp   0     0      0.0.0.0:68        0.0.0.0:*\n\
                  \n\
                  too few tokens\n\
                  a 0 c d e\n";
    assert_eq!(
        parse_connections(output),
        vec![
            NetworkConnection {
                protocol: "tcp".to_string(),
                local_address: "192.168.1.5:22".to_string(),
                remote_address: "192.168.1.9:50514".to_string(),
                state: "ESTAB".to_string(),
                pid_program: "users:((\"sshd\",pid=1,fd=4))".to_string(),
            },
            NetworkConnection {
                protocol: "udp".to_string(),
                local_address: "0.0.0.0:*".to_string(),
                remote_address: String::new(),
                state: "0".to_string(),
                pid_program: String::new(),
            },
            NetworkConnection {
                protocol: "a".to_string(),
                local_address: "e".to_string(),
                remote_address: String::new(),
                state: "0".to_string(),
                pid_program: String::new(),
            },
        ]
    );
    let err = connections_response(failed());
    assert!(!err.success && err.connections.is_empty() && err.error.is_some());
    let ok = connections_response(Ok("a b c d e f g".to_string()));
    assert!(ok.success && ok.connections.len() == 1 && ok.error.is_none());
    assert_eq!(ok.connections[0].state, "ESTAB");
    assert_eq!(ok.connections[0].remote_address, "f");
    assert_eq!(ok.connections[0].pid_program, "g");
}

#[test]
fn file_systems_are_read_from_df() {
    let output = "/dev/sda1|ext4|50G|20G|60%|/\n\
                  tmpfs|tmpfs|0|0|0%|/run/empty\n\
                  proc|proc|0K|0K|-|/proc\n\
                  none|x|0M|1|2|/n\n\
                  /dev/sdb1|xfs|1.8T|900G|51%|/data\n\
                  short|line\n\
                  ---\n\
                  /dev/sda1|3276800|12%|/\n\
                  /dev/sdb1|100|7%|/data\n\
                  /dev/sdb1|200|8%%|/data\n\
                  broken\n";
    let disks = parse_disks(output).expect("a mark");
    assert_eq!(
        disks,
        vec![
            DiskInfo {
                filesystem: "/dev/sda1".to_string(),
                path: "/".to_string(),
                total: "50G".to_string(),
                available: "20G".to_string(),
                usage: 60,
                inodes_total: "3276800".to_string(),
                inodes_usage: 12,
            },
            DiskInfo {
                filesystem: "/dev/sdb1".to_string(),
                path: "/data".to_string(),
                total: "1.8T".to_string(),
                available: "900G".to_string(),
                usage: 51,
                inodes_total: "200".to_string(),
                inodes_usage: 8,
            },
        ]
    );
}

#[test]
fn file_systems_without_inodes_have_unknown_inodes() {
    let disks = parse_disks("a|t|1G|1G|x%|/a\n---\nb|5|6%|/a").expect("a mark");
    assert_eq!(disks.len(), 1);
    assert_eq!(disks[0].usage, 0);
    assert_eq!(disks[0].inodes_total, "N/A");
    assert_eq!(disks[0].inodes_usage, 0);
    let joined = parse_disks("a:b|t|1G|1G|1%|c\n---\na|5|6%|b:c").expect("a mark");
    assert_eq!(joined[0].inodes_total, "5");
}

#[test]
fn at_most_twenty_file_systems_are_listed() {
    let mut output = String::new();
    for i in 0..25 {
        output.push_str(&format!("fs{}|t|{}G|1G|1%|/m{}\n", i, i + 1, i));
    }
    output.push_str("---\n");
    let disks = parse_disks(&output).expect("a mark");
    assert_eq!(disks.len(), 20);
    assert_eq!(disks[0].filesystem, "fs0");
    assert_eq!(disks[19].filesystem, "fs19");
}

#[test]
fn the_answer_for_file_systems() {
    assert_eq!(parse_disks("no mark at all"), None);
    let unparsed = disk_usage_response(Ok("no mark at all".to_string()));
    assert!(unparsed.success);
    assert!(unparsed.disks.is_empty());
    assert_eq!(unparsed.error, Some("Failed to parse disk information".to_string()));
    let ok = disk_usage_response(Ok("a|t|1G|1G|1%|/a\n---\n".to_string()));
    assert!(ok.success && ok.disks.len() == 1 && ok.error.is_none());
    let err = disk_usage_response(failed());
    assert!(!err.success && err.disks.is_empty() && err.error.is_some());
}

#[test]
fn memory_swap_disk_and_uptime_are_read_from_one_line() {
    let output = "15952 8123 1024 7000 2047 100 1947  50G 20G 28G 42%\nup 3 days, 2 hours\n";
    assert_eq!(
        parse_memory(output),
        MemoryStats { total: 15952, used: 8123, free: 1024, available: 7000 }
    );
    assert_eq!(parse_swap(output), MemoryStats { total: 2047, used: 100, free: 1947, available: 0 });
    let disk = parse_root_disk(output);
    assert_eq!(disk.total, "50G");
    assert_eq!(disk.used, "20G");
    assert_eq!(disk.available, "28G");
    assert_eq!(disk.use_percent, "42");
    assert_eq!(parse_uptime(output), "up 3 days, 2 hours");
}

#[test]
fn missing_values_fall_back() {
    let zero = MemoryStats { total: 0, used: 0, free: 0, available: 0 };
    assert_eq!(parse_memory(""), zero);
    assert_eq!(parse_swap(""), zero);
    assert_eq!(parse_memory("1 x 3"), MemoryStats { total: 1, used: 0, free: 3, available: 0 });
    let disk = parse_root_disk("1 2 3 4 5 6 7 8G");
    assert_eq!(disk.total, "8G");
    assert_eq!(disk.used, "0");
    assert_eq!(disk.available, "0");
    assert_eq!(disk.use_percent, "");
    assert_eq!(parse_uptime(""), "Unknown");
    assert_eq!(parse_uptime("1 2 3 4 5 6 7 8 9 10 11"), "Unknown");
    assert_eq!(parse_uptime("1 2 3 4 5 6 7 8 9 10 11 up"), "up");
}

#[test]
fn cores_are_the_seventh_token_or_one() {
    assert_eq!(parse_cores("1.5 0.5 0.0 0.10, 0.20, 0.30 8\n"), 8);
    assert_eq!(parse_cores("1.5 0.5 0.0 0.10, 0.20, 0.30"), 1);
    assert_eq!(parse_cores("1.5 0.5 0.0 0.10, 0.20, 0.30 many"), 1);
    assert_eq!(parse_cores(""), 1);
    assert_eq!(parse_cores("a b c d e f 0"), 0);
}

#[test]
fn shares_and_loads_are_picked_as_they_are_written() {
    let cpu = parse_cpu_texts("1.5 0.5 0.0 0.10, 0.20, 0.30 8\n");
    assert_eq!(cpu.user, "1.5");
    assert_eq!(cpu.system, "0.5");
    assert_eq!(cpu.iowait, "0.0");
    assert_eq!(cpu.load_1m, "0.10");
    assert_eq!(cpu.load_5m, "0.20");
    assert_eq!(cpu.load_15m, "0.30");
    let few = parse_cpu_texts("2.0, ,, x y,,");
    assert_eq!(few.user, "2.0,");
    assert_eq!(few.system, ",,");
    assert_eq!(few.iowait, "x");
    assert_eq!(few.load_1m, "y");
    assert_eq!(few.load_5m, "");
    assert_eq!(few.load_15m, "");
}

#[test]
fn the_host_says_who_it_is() {
    assert_eq!(system_info_field(Ok("Linux\n".to_string())), "Linux");
    assert_eq!(system_info_field(Ok("  x86_64  ".to_string())), "x86_64");
    assert_eq!(system_info_field(failed()), "Unknown");
    assert_eq!(trimmed_output(" \t a b \n"), "a b");
    let r = system_info_response(
        Ok("Linux\n".to_string()),
        Ok("6.1.0\n".to_string()),
        failed(),
        Ok("aarch64".to_string()),
    );
    assert!(r.success);
    assert_eq!(r.os, "Linux");
    assert_eq!(r.kernel, "6.1.0");
    assert_eq!(r.hostname, "Unknown");
    assert_eq!(r.architecture, "aarch64");
}

#[test]
fn the_commands_of_the_probes() {
    assert_eq!(
        socket_stats_command(),
        "ss -s 2>/dev/null || echo 'Total: 0'; echo \"---SYNRECV---\"; ss -ant 2>/dev/null | grep -c SYN-RECV || echo 0"
    );
    assert_eq!(connections_command(), "ss -tunp 2>/dev/null | tail -n +2 | head -50");
    assert_eq!(
        disk_usage_command(),
        "df -hT | awk 'NR>1 {print $1\"|\"$2\"|\"$3\"|\"$5\"|\"$6\"|\"$7}'; echo '---'; df -iT | awk 'NR>1 {print $1\"|\"$3\"|\"$6\"|\"$7}'"
    );
    assert_eq!(load_average_command(), "uptime | awk -F'load average:' '{print $2}' | xargs");
    assert_eq!(os_command(), "uname -s 2>/dev/null || echo 'Unknown'");
    assert_eq!(kernel_command(), "uname -r 2>/dev/null || echo 'Unknown'");
    assert_eq!(hostname_command(), "hostname 2>/dev/null || uname -n 2>/dev/null || echo 'Unknown'");
    assert_eq!(architecture_command(), "uname -m 2>/dev/null || echo 'Unknown'");
    assert_eq!(
        cpu_stats_command(),
        "echo \"$(top -bn1 | grep 'Cpu(s)' | sed 's/%//g' | awk '{print $2,$4,$10}') $(uptime | awk -F'load average:' '{print $2}' | xargs) $(nproc --all 2>/dev/null || grep -c '^processor' /proc/cpuinfo || sysctl -n hw.ncpu 2>/dev/null || echo '1')\""
    );
    assert_eq!(
        memory_disk_command(),
        "echo \"$(free -m | awk 'NR==2{printf \"%s %s %s %s \", $2,$3,$4,$7} NR==3{printf \"%s %s %s \", $2,$3,$4}') $(df -h / | awk 'NR==2{printf \"%s %s %s %s\", $2,$3,$4,$5}')\" && (uptime -p 2>/dev/null || uptime | awk '{print $3\" \"$4}')"
    );
}

#[test]
fn the_scripts_of_the_probes() {
    let stats = r#"
for iface in /sys/class/net/*; do
    name=$(basename $iface)
    if [ "$name" != "lo" ]; then
        rx_bytes=$(cat $iface/statistics/rx_bytes 2>/dev/null || echo 0)
        tx_bytes=$(cat $iface/statistics/tx_bytes 2>/dev/null || echo 0)
        rx_packets=$(cat $iface/statistics/rx_packets 2>/dev/null || echo 0)
        tx_packets=$(cat $iface/statistics/tx_packets 2>/dev/null || echo 0)
        echo "$name,$rx_bytes,$tx_bytes,$rx_packets,$tx_packets"
    fi
done
"#;
    assert_eq!(network_stats_command(), stats);
    assert_eq!(stats.lines().count(), 11);
    let bandwidth = r#"
iface_list=""
for iface in /sys/class/net/*; do
    name=$(basename $iface)
    if [ "$name" != "lo" ]; then
        iface_list="$iface_list $name"
    fi
done

for iface in $iface_list; do
    rx1=$(cat /sys/class/net/$iface/statistics/rx_bytes 2>/dev/null || echo 0)
    tx1=$(cat /sys/class/net/$iface/statistics/tx_bytes 2>/dev/null || echo 0)
    echo "$iface,$rx1,$tx1"
done
sleep 1
for iface in $iface_list; do
    rx2=$(cat /sys/class/net/$iface/statistics/rx_bytes 2>/dev/null || echo 0)
    tx2=$(cat /sys/class/net/$iface/statistics/tx_bytes 2>/dev/null || echo 0)
    echo "$iface,$rx2,$tx2"
done
"#;
    assert_eq!(bandwidth_command(), bandwidth);
    assert!(bandwidth.contains("\nsleep 1\n"));
}

#[test]
fn latency_is_asked_of_a_default_target() {
    assert_eq!(
        latency_command(None),
        "ping -c 1 -W 1 8.8.8.8 2>&1 | grep -oP 'time=\\K[0-9.]+' || echo 'timeout'"
    );
    assert_eq!(
        latency_command(Some("10.0.0.1")),
        "ping -c 1 -W 1 10.0.0.1 2>&1 | grep -oP 'time=\\K[0-9.]+' || echo 'timeout'"
    );
    assert_eq!(latency_reading("timeout\n"), LatencyReading::Unreachable);
    assert_eq!(latency_reading("  \n"), LatencyReading::Unreachable);
    assert_eq!(latency_reading(""), LatencyReading::Unreachable);
    assert_eq!(latency_reading(" 12.3\n"), LatencyReading::Millis { text: "12.3".to_string() });
    assert_eq!(latency_reading("timeouts"), LatencyReading::Millis { text: "timeouts".to_string() });
    assert_eq!(unreachable_text(), "Ping timeout or unreachable");
    assert_eq!(unreadable_text(), "Failed to parse latency");
}

#[test]
fn bandwidth_pairs_the_two_readings() {
    let output = "eth0,100,200\nwlan0,1,2\neth0,150,260\nwlan0,3,x\n";
    assert_eq!(
        bandwidth_samples(output),
        vec![
            BandwidthSample {
                interface: "eth0".to_string(),
                rx_before: "100".to_string(),
                tx_before: "200".to_string(),
                rx_after: "150".to_string(),
                tx_after: "260".to_string(),
            },
            BandwidthSample {
                interface: "wlan0".to_string(),
                rx_before: "1".to_string(),
                tx_before: "2".to_string(),
                rx_after: "3".to_string(),
                tx_after: "x".to_string(),
            },
        ]
    );
    assert!(bandwidth_samples("").is_empty());
    assert!(bandwidth_samples("eth0,1,2").is_empty());
    assert!(bandwidth_samples("eth0,1,2\nwlan0,3,4").is_empty());
    assert!(bandwidth_samples("eth0,1,2\neth0,3").is_empty());
    assert_eq!(bandwidth_samples("a,1,2\nb,1,2\na,3,4\nb,5,6\nextra,0,0").len(), 2);
    assert_eq!(bandwidth_samples("a,1,2\nb,1,2\nc,0,0\na,3,4\nb,5,6").len(), 0);
    assert_eq!(bandwidth_samples("a,1,2\na,3,4\nodd,0,0").len(), 1);
}

#[test]
fn the_word_under_the_cursor_is_completed() {
    assert_eq!(
        plan_completion("ec", 2),
        CompletionPlan {
            word: "ec".to_string(),
            command: "compgen -c ec 2>/dev/null || echo".to_string(),
        }
    );
    assert_eq!(
        plan_completion("ls /et", 6),
        CompletionPlan {
            word: "/et".to_string(),
            command: "compgen -f /et 2>/dev/null || ls -1ap /et 2>/dev/null | grep '^/et' || echo"
                .to_string(),
        }
    );
    assert_eq!(plan_completion("ls /et", 2).word, "ls");
    assert_eq!(plan_completion("ls /et", 2).command, "compgen -c ls 2>/dev/null || echo");
    assert_eq!(plan_completion("ls /et", 100).word, "/et");
    assert_eq!(plan_completion("", 0).word, "");
    assert_eq!(plan_completion("", 0).command, "compgen -c  2>/dev/null || echo");
    assert_eq!(plan_completion("ls ", 3).word, "ls");
    assert_eq!(plan_completion("git  commit  -", 14).word, "-");
    let request = TabCompletionRequest {
        session_id: "s".to_string(),
        input: "ec".to_string(),
        cursor_position: 2,
    };
    assert_eq!(plan_completion(&request.input, request.cursor_position).word, "ec");
}

#[test]
fn tab_completion_of_ec_offers_echo() {
    let plan = plan_completion("ec", 2);
    let output = "echo\necryptfs-mount-private\necho\n ec-indented\n\nls\necho2  \n";
    let response = completion_response(&plan.word, Ok(output.to_string()));
    assert!(response.success);
    assert_eq!(
        response.completions,
        vec!["echo", "ecryptfs-mount-private", "echo", "echo2"]
    );
    assert!(response.completions.contains(&"echo".to_string()));
    let prefix = response.common_prefix.expect("a common prefix");
    assert!(prefix.starts_with("ec"));
    assert_eq!(prefix, "ec");
    assert_eq!(response.error, None);
}

#[test]
fn no_common_prefix_for_one_completion_or_none() {
    let one = completion_response("ec", Ok("echo\n".to_string()));
    assert_eq!(one.completions, vec!["echo"]);
    assert_eq!(one.common_prefix, None);
    let none = completion_response("ec", Ok("\n".to_string()));
    assert!(none.success && none.completions.is_empty());
    assert_eq!(none.common_prefix, None);
    let same = completion_response("e", Ok("echo\necho\n".to_string()));
    assert_eq!(same.common_prefix, None);
    let longer = completion_response("e", Ok("echo\necho2\nechoes".to_string()));
    assert_eq!(longer.common_prefix, None);
    let shorter = completion_response("e", Ok("echo2\necho\nechoes".to_string()));
    assert_eq!(shorter.common_prefix, Some("echo".to_string()));
    let err = completion_response("ec", failed());
    assert!(!err.success && err.completions.is_empty() && err.common_prefix.is_none());
    assert_eq!(err.error, Some("Command failed with code: Some(1)".to_string()));
}

#[test]
fn at_most_fifty_completions_are_listed() {
    let mut output = String::new();
    for i in 0..60 {
        output.push_str(&format!("cmd{}\n", i));
    }
    let completions = parse_completions(&output, "cmd");
    assert_eq!(completions.len(), 50);
    assert_eq!(completions[0], "cmd0");
    assert_eq!(completions[49], "cmd49");
    assert_eq!(parse_completions(&output, "").len(), 50);
    assert_eq!(parse_completions(&output, "cmd5").len(), 11);
}
