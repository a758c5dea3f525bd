//! Tips for the cloud mode loading screen.

use vstd::prelude::*;

verus! {

/// A cloud mode tip with text and optional link.
#[derive(Clone, Debug)]
pub struct CloudModeTip {
    text: String,
    link: Option<String>,
}

impl View for CloudModeTip {
    type V = (Seq<char>, Option<Seq<char>>);

    closed spec fn view(&self) -> (Seq<char>, Option<Seq<char>>) {
        (self.text@, match self.link {
            Some(l) => Some(l@),
            None => None,
        })
    }
}

impl CloudModeTip {
    /// A tip with the given text and optional link.
    pub fn new(text: &str, link: Option<&str>) -> (r: Self)
        ensures
            r@.0 == text@,
            r@.1 == match link {
                Some(l) => Some(l@),
                None => None,
            },
    {
        let link = match link {
            Some(l) => Some(l.to_owned()),
            None => None,
        };
        CloudModeTip { text: text.to_owned(), link }
    }

    /// The tip's link, if any.
    pub fn link(&self) -> (r: Option<String>)
        ensures
            match r {
                Some(l) => self@.1 == Some(l@),
                None => self@.1 is None,
            },
    {
        match &self.link {
            Some(l) => Some(l.clone()),
            None => None,
        }
    }

    /// The tip's text.
    pub fn description(&self) -> (r: &str)
        ensures
            r@ == self@.0,
    {
        self.text.as_str()
    }
}

/// The tips shown on the cloud mode loading screen, in display order: text and link.
pub open spec fn cloud_mode_tips_spec() -> Seq<(Seq<char>, Option<Seq<char>>)> {
    seq![
        ("Install the Oz Slack integration to trigger agents from any channel or DM."@, Some("https://github.com/nikolaypaskov/heddle#readme"@)),
        ("Build programmatic agents using Oz's TypeScript and Python SDKs."@, Some("https://github.com/nikolaypaskov/heddle#readme"@)),
        ("Set team or personal secrets for agents using the `oz secret` command."@, Some("https://github.com/nikolaypaskov/heddle#readme"@)),
        ("Join any Oz cloud agent run in real-time using Agent Session Sharing."@, Some("https://github.com/nikolaypaskov/heddle#readme"@)),
        ("Set up recurring agents that run on cron schedules for automated maintenance."@, Some("https://github.com/nikolaypaskov/heddle#readme"@)),
        ("Create agents that automatically fix bugs when issues are filed in Linear."@, Some("https://github.com/nikolaypaskov/heddle#readme"@)),
        ("Build agents that respond to CI failures and attempt automatic fixes."@, Some("https://github.com/nikolaypaskov/heddle#readme"@)),
        ("Run agents from GitHub Actions using the `oz-agent-action`."@, Some("https://github.com/warpdotdev/oz-agent-action"@)),
        ("Call the Oz REST API to trigger agents from any backend service or internal tool."@, Some("https://github.com/nikolaypaskov/heddle#readme"@)),
        ("Create reusable environments with Docker images for consistent agent execution."@, Some("https://github.com/nikolaypaskov/heddle#readme"@)),
        ("Share agent session links with your team for collaborative debugging."@, Some("https://github.com/nikolaypaskov/heddle#readme"@)),
        ("Use the `--share` flag with the Oz CLI to enable session sharing from anywhere."@, Some("https://github.com/nikolaypaskov/heddle#readme"@)),
        ("Fork a completed Oz cloud agent session into Warp to continue the work locally."@, Some("https://github.com/nikolaypaskov/heddle#readme"@)),
        ("Build internal tools that use agents to answer questions from your databases."@, Some("https://github.com/nikolaypaskov/heddle#readme"@)),
        ("Create a scheduled agent to clean up stale feature flags every week."@, Some("https://github.com/nikolaypaskov/heddle#readme"@)),
        ("Tag @Oz in Linear issues to automatically investigate and propose fixes."@, Some("https://github.com/nikolaypaskov/heddle#readme"@)),
        ("Run agents on remote dev boxes or CI runners using the Oz CLI."@, Some("https://github.com/nikolaypaskov/heddle#readme"@)),
        ("Configure MCP servers to give Oz cloud agents access to GitHub, Linear, and Sentry."@, Some("https://github.com/nikolaypaskov/heddle#readme"@)),
        ("Use `oz agent run` to kick off tasks without opening the Warp terminal."@, Some("https://github.com/nikolaypaskov/heddle#readme"@)),
        ("Build agents that automatically triage and label incoming GitHub issues."@, Some("https://github.com/nikolaypaskov/heddle#readme"@)),
        ("Set up an agent to generate daily summaries of newly opened issues."@, Some("https://github.com/nikolaypaskov/heddle#readme"@)),
        ("Create an agent that automatically reviews PRs and suggests improvements."@, Some("https://github.com/nikolaypaskov/heddle#readme"@)),
        ("Use `oz environment create` to define reproducible execution contexts."@, Some("https://github.com/nikolaypaskov/heddle#readme"@)),
        ("Trigger agents from webhooks to respond to production incidents."@, Some("https://github.com/nikolaypaskov/heddle#readme"@)),
        ("Build an agent that restarts services or scales deployments when alerts fire."@, Some("https://github.com/nikolaypaskov/heddle#readme"@)),
        ("Use personal secrets for credentials that should only be used by your agents."@, Some("https://github.com/nikolaypaskov/heddle#readme"@)),
        ("Use team secrets for shared infrastructure credentials across all agents."@, Some("https://github.com/nikolaypaskov/heddle#readme"@)),
        ("Create an agent that runs nightly to check for dependency updates."@, Some("https://github.com/nikolaypaskov/heddle#readme"@)),
        ("Build an agent that automatically formats and lints code on a schedule."@, Some("https://github.com/nikolaypaskov/heddle#readme"@)),
        ("Use `oz schedule create` to set up cron-triggered agents."@, Some("https://github.com/nikolaypaskov/heddle#readme"@)),
        ("Pause and resume scheduled agents without deleting them using `oz schedule pause`."@, Some("https://github.com/nikolaypaskov/heddle#readme"@)),
        ("Use `oz mcp list` to see which MCP servers are available to your agents."@, Some("https://github.com/nikolaypaskov/heddle#readme"@)),
        ("Build an internal Slack bot that delegates coding tasks to Oz agents."@, Some("https://github.com/nikolaypaskov/heddle#readme"@)),
        ("Create an agent that responds to @mentions in Slack threads with full context."@, Some("https://github.com/nikolaypaskov/heddle#readme"@)),
        ("Use the Oz TypeScript SDK to build custom automation pipelines."@, Some("https://github.com/nikolaypaskov/heddle#readme"@)),
        ("Use the Oz Python SDK to integrate agents into your data pipelines."@, Some("https://github.com/nikolaypaskov/heddle#readme"@)),
        ("Monitor agent success rates and runtimes using the Oz API."@, Some("https://github.com/nikolaypaskov/heddle#readme"@)),
        ("Build a dashboard that tracks all agent activity across your team."@, Some("https://github.com/nikolaypaskov/heddle#readme"@)),
    ]
}

/// Whether `s` is an address on github.com.
pub open spec fn is_github_address(s: Seq<char>) -> bool {
    s.len() >= 19 && s.take(19) == "https://github.com/"@
}

/// Law: every tip carries a link, and every link points at github.com. The tips name no
/// web address of the upstream vendor.
pub proof fn lemma_tip_links_are_github()
    ensures
        forall|i: int|
            0 <= i < cloud_mode_tips_spec().len() ==> {
                let link = #[trigger] cloud_mode_tips_spec()[i].1;
                link is Some && is_github_address(link->0)
            },
{
    reveal_strlit("https://github.com/");
    reveal_strlit("https://github.com/nikolaypaskov/heddle#readme");
    reveal_strlit("https://github.com/warpdotdev/oz-agent-action");
    assert("https://github.com/nikolaypaskov/heddle#readme"@.take(19) =~= "https://github.com/"@);
    assert("https://github.com/warpdotdev/oz-agent-action"@.take(19) =~= "https://github.com/"@);
}

/// Law: every tip has a non-empty description, and no two tips share one.
pub proof fn lemma_tip_descriptions_are_distinct()
    ensures
        forall|i: int|
            0 <= i < cloud_mode_tips_spec().len() ==> (#[trigger] cloud_mode_tips_spec()[i]).0.len() > 0,
        forall|i: int, j: int|
            0 <= i < j < cloud_mode_tips_spec().len() ==> (#[trigger] cloud_mode_tips_spec()[i]).0
                != (#[trigger] cloud_mode_tips_spec()[j]).0,
{
    // The texts themselves.
    reveal_strlit("Install the Oz Slack integration to trigger agents from any channel or DM.");
    reveal_strlit("Build programmatic agents using Oz's TypeScript and Python SDKs.");
    reveal_strlit("Set team or personal secrets for agents using the `oz secret` command.");
    reveal_strlit("Join any Oz cloud agent run in real-time using Agent Session Sharing.");
    reveal_strlit("Set up recurring agents that run on cron schedules for automated maintenance.");
    reveal_strlit("Create agents that automatically fix bugs when issues are filed in Linear.");
    reveal_strlit("Build agents that respond to CI failures and attempt automatic fixes.");
    reveal_strlit("Run agents from GitHub Actions using the `oz-agent-action`.");
    reveal_strlit("Call the Oz REST API to trigger agents from any backend service or internal tool.");
    reveal_strlit("Create reusable environments with Docker images for consistent agent execution.");
    reveal_strlit("Share agent session links with your team for collaborative debugging.");
    reveal_strlit("Use the `--share` flag with the Oz CLI to enable session sharing from anywhere.");
    reveal_strlit("Fork a completed Oz cloud agent session into Warp to continue the work locally.");
    reveal_strlit("Build internal tools that use agents to answer questions from your databases.");
    reveal_strlit("Create a scheduled agent to clean up stale feature flags every week.");
    reveal_strlit("Tag @Oz in Linear issues to automatically investigate and propose fixes.");
    reveal_strlit("Run agents on remote dev boxes or CI runners using the Oz CLI.");
    reveal_strlit("Configure MCP servers to give Oz cloud agents access to GitHub, Linear, and Sentry.");
    reveal_strlit("Use `oz agent run` to kick off tasks without opening the Warp terminal.");
    reveal_strlit("Build agents that automatically triage and label incoming GitHub issues.");
    reveal_strlit("Set up an agent to generate daily summaries of newly opened issues.");
    reveal_strlit("Create an agent that automatically reviews PRs and suggests improvements.");
    reveal_strlit("Use `oz environment create` to define reproducible execution contexts.");
    reveal_strlit("Trigger agents from webhooks to respond to production incidents.");
    reveal_strlit("Build an agent that restarts services or scales deployments when alerts fire.");
    reveal_strlit("Use personal secrets for credentials that should only be used by your agents.");
    reveal_strlit("Use team secrets for shared infrastructure credentials across all agents.");
    reveal_strlit("Create an agent that runs nightly to check for dependency updates.");
    reveal_strlit("Build an agent that automatically formats and lints code on a schedule.");
    reveal_strlit("Use `oz schedule create` to set up cron-triggered agents.");
    reveal_strlit("Pause and resume scheduled agents without deleting them using `oz schedule pause`.");
    reveal_strlit("Use `oz mcp list` to see which MCP servers are available to your agents.");
    reveal_strlit("Build an internal Slack bot that delegates coding tasks to Oz agents.");
    reveal_strlit("Create an agent that responds to @mentions in Slack threads with full context.");
    reveal_strlit("Use the Oz TypeScript SDK to build custom automation pipelines.");
    reveal_strlit("Use the Oz Python SDK to integrate agents into your data pipelines.");
    reveal_strlit("Monitor agent success rates and runtimes using the Oz API.");
    reveal_strlit("Build a dashboard that tracks all agent activity across your team.");
    // Texts of equal length differ at the position named.
    assert("Install the Oz Slack integration to trigger agents from any channel or DM."@[0] != "Create agents that automatically fix bugs when issues are filed in Linear."@[0]);
    assert("Build programmatic agents using Oz's TypeScript and Python SDKs."@[0] != "Trigger agents from webhooks to respond to production incidents."@[0]);
    assert("Set team or personal secrets for agents using the `oz secret` command."@[0] != "Use `oz environment create` to define reproducible execution contexts."@[0]);
    assert("Join any Oz cloud agent run in real-time using Agent Session Sharing."@[0] != "Build agents that respond to CI failures and attempt automatic fixes."@[0]);
    assert("Join any Oz cloud agent run in real-time using Agent Session Sharing."@[0] != "Share agent session links with your team for collaborative debugging."@[0]);
    assert("Join any Oz cloud agent run in real-time using Agent Session Sharing."@[0] != "Build an internal Slack bot that delegates coding tasks to Oz agents."@[0]);
    assert("Set up recurring agents that run on cron schedules for automated maintenance."@[0] != "Build internal tools that use agents to answer questions from your databases."@[0]);
    assert("Set up recurring agents that run on cron schedules for automated maintenance."@[0] != "Build an agent that restarts services or scales deployments when alerts fire."@[0]);
    assert("Set up recurring agents that run on cron schedules for automated maintenance."@[0] != "Use personal secrets for credentials that should only be used by your agents."@[0]);
    assert("Build agents that respond to CI failures and attempt automatic fixes."@[0] != "Share agent session links with your team for collaborative debugging."@[0]);
    assert("Build agents that respond to CI failures and attempt automatic fixes."@[7] != "Build an internal Slack bot that delegates coding tasks to Oz agents."@[7]);
    assert("Create reusable environments with Docker images for consistent agent execution."@[0] != "Use the `--share` flag with the Oz CLI to enable session sharing from anywhere."@[0]);
    assert("Create reusable environments with Docker images for consistent agent execution."@[0] != "Fork a completed Oz cloud agent session into Warp to continue the work locally."@[0]);
    assert("Share agent session links with your team for collaborative debugging."@[0] != "Build an internal Slack bot that delegates coding tasks to Oz agents."@[0]);
    assert("Use the `--share` flag with the Oz CLI to enable session sharing from anywhere."@[0] != "Fork a completed Oz cloud agent session into Warp to continue the work locally."@[0]);
    assert("Build internal tools that use agents to answer questions from your databases."@[6] != "Build an agent that restarts services or scales deployments when alerts fire."@[6]);
    assert("Build internal tools that use agents to answer questions from your databases."@[0] != "Use personal secrets for credentials that should only be used by your agents."@[0]);
    assert("Tag @Oz in Linear issues to automatically investigate and propose fixes."@[0] != "Build agents that automatically triage and label incoming GitHub issues."@[0]);
    assert("Tag @Oz in Linear issues to automatically investigate and propose fixes."@[0] != "Use `oz mcp list` to see which MCP servers are available to your agents."@[0]);
    assert("Use `oz agent run` to kick off tasks without opening the Warp terminal."@[0] != "Build an agent that automatically formats and lints code on a schedule."@[0]);
    assert("Build agents that automatically triage and label incoming GitHub issues."@[0] != "Use `oz mcp list` to see which MCP servers are available to your agents."@[0]);
    assert("Set up an agent to generate daily summaries of newly opened issues."@[0] != "Use the Oz Python SDK to integrate agents into your data pipelines."@[0]);
    assert("Create an agent that automatically reviews PRs and suggests improvements."@[0] != "Use team secrets for shared infrastructure credentials across all agents."@[0]);
    assert("Build an agent that restarts services or scales deployments when alerts fire."@[0] != "Use personal secrets for credentials that should only be used by your agents."@[0]);
    assert("Create an agent that runs nightly to check for dependency updates."@[0] != "Build a dashboard that tracks all agent activity across your team."@[0]);
    // Pin each index to its text, on both sides of the pair.
    assert forall|i: int, j: int| 0 <= i < j < cloud_mode_tips_spec().len() implies
        (#[trigger] cloud_mode_tips_spec()[i]).0 != (#[trigger] cloud_mode_tips_spec()[j]).0 by {
        if i == 0 {
            assert(cloud_mode_tips_spec()[i].0 == "Install the Oz Slack integration to trigger agents from any channel or DM."@);
        } else if i == 1 {
            assert(cloud_mode_tips_spec()[i].0 == "Build programmatic agents using Oz's TypeScript and Python SDKs."@);
        } else if i == 2 {
            assert(cloud_mode_tips_spec()[i].0 == "Set team or personal secrets for agents using the `oz secret` command."@);
        } else if i == 3 {
            assert(cloud_mode_tips_spec()[i].0 == "Join any Oz cloud agent run in real-time using Agent Session Sharing."@);
        } else if i == 4 {
            assert(cloud_mode_tips_spec()[i].0 == "Set up recurring agents that run on cron schedules for automated maintenance."@);
        } else if i == 5 {
            assert(cloud_mode_tips_spec()[i].0 == "Create agents that automatically fix bugs when issues are filed in Linear."@);
        } else if i == 6 {
            assert(cloud_mode_tips_spec()[i].0 == "Build agents that respond to CI failures and attempt automatic fixes."@);
        } else if i == 7 {
            assert(cloud_mode_tips_spec()[i].0 == "Run agents from GitHub Actions using the `oz-agent-action`."@);
        } else if i == 8 {
            assert(cloud_mode_tips_spec()[i].0 == "Call the Oz REST API to trigger agents from any backend service or internal tool."@);
        } else if i == 9 {
            assert(cloud_mode_tips_spec()[i].0 == "Create reusable environments with Docker images for consistent agent execution."@);
        } else if i == 10 {
            assert(cloud_mode_tips_spec()[i].0 == "Share agent session links with your team for collaborative debugging."@);
        } else if i == 11 {
            assert(cloud_mode_tips_spec()[i].0 == "Use the `--share` flag with the Oz CLI to enable session sharing from anywhere."@);
        } else if i == 12 {
            assert(cloud_mode_tips_spec()[i].0 == "Fork a completed Oz cloud agent session into Warp to continue the work locally."@);
        } else if i == 13 {
            assert(cloud_mode_tips_spec()[i].0 == "Build internal tools that use agents to answer questions from your databases."@);
        } else if i == 14 {
            assert(cloud_mode_tips_spec()[i].0 == "Create a scheduled agent to clean up stale feature flags every week."@);
        } else if i == 15 {
            assert(cloud_mode_tips_spec()[i].0 == "Tag @Oz in Linear issues to automatically investigate and propose fixes."@);
        } else if i == 16 {
            assert(cloud_mode_tips_spec()[i].0 == "Run agents on remote dev boxes or CI runners using the Oz CLI."@);
        } else if i == 17 {
            assert(cloud_mode_tips_spec()[i].0 == "Configure MCP servers to give Oz cloud agents access to GitHub, Linear, and Sentry."@);
        } else if i == 18 {
            assert(cloud_mode_tips_spec()[i].0 == "Use `oz agent run` to kick off tasks without opening the Warp terminal."@);
        } else if i == 19 {
            assert(cloud_mode_tips_spec()[i].0 == "Build agents that automatically triage and label incoming GitHub issues."@);
        } else if i == 20 {
            assert(cloud_mode_tips_spec()[i].0 == "Set up an agent to generate daily summaries of newly opened issues."@);
        } else if i == 21 {
            assert(cloud_mode_tips_spec()[i].0 == "Create an agent that automatically reviews PRs and suggests improvements."@);
        } else if i == 22 {
            assert(cloud_mode_tips_spec()[i].0 == "Use `oz environment create` to define reproducible execution contexts."@);
        } else if i == 23 {
            assert(cloud_mode_tips_spec()[i].0 == "Trigger agents from webhooks to respond to production incidents."@);
        } else if i == 24 {
            assert(cloud_mode_tips_spec()[i].0 == "Build an agent that restarts services or scales deployments when alerts fire."@);
        } else if i == 25 {
            assert(cloud_mode_tips_spec()[i].0 == "Use personal secrets for credentials that should only be used by your agents."@);
        } else if i == 26 {
            assert(cloud_mode_tips_spec()[i].0 == "Use team secrets for shared infrastructure credentials across all agents."@);
        } else if i == 27 {
            assert(cloud_mode_tips_spec()[i].0 == "Create an agent that runs nightly to check for dependency updates."@);
        } else if i == 28 {
            assert(cloud_mode_tips_spec()[i].0 == "Build an agent that automatically formats and lints code on a schedule."@);
        } else if i == 29 {
            assert(cloud_mode_tips_spec()[i].0 == "Use `oz schedule create` to set up cron-triggered agents."@);
        } else if i == 30 {
            assert(cloud_mode_tips_spec()[i].0 == "Pause and resume scheduled agents without deleting them using `oz schedule pause`."@);
        } else if i == 31 {
            assert(cloud_mode_tips_spec()[i].0 == "Use `oz mcp list` to see which MCP servers are available to your agents."@);
        } else if i == 32 {
            assert(cloud_mode_tips_spec()[i].0 == "Build an internal Slack bot that delegates coding tasks to Oz agents."@);
        } else if i == 33 {
            assert(cloud_mode_tips_spec()[i].0 == "Create an agent that responds to @mentions in Slack threads with full context."@);
        } else if i == 34 {
            assert(cloud_mode_tips_spec()[i].0 == "Use the Oz TypeScript SDK to build custom automation pipelines."@);
        } else if i == 35 {
            assert(cloud_mode_tips_spec()[i].0 == "Use the Oz Python SDK to integrate agents into your data pipelines."@);
        } else if i == 36 {
            assert(cloud_mode_tips_spec()[i].0 == "Monitor agent success rates and runtimes using the Oz API."@);
        } else if i == 37 {
            assert(cloud_mode_tips_spec()[i].0 == "Build a dashboard that tracks all agent activity across your team."@);
        }
        if j == 0 {
            assert(cloud_mode_tips_spec()[j].0 == "Install the Oz Slack integration to trigger agents from any channel or DM."@);
        } else if j == 1 {
            assert(cloud_mode_tips_spec()[j].0 == "Build programmatic agents using Oz's TypeScript and Python SDKs."@);
        } else if j == 2 {
            assert(cloud_mode_tips_spec()[j].0 == "Set team or personal secrets for agents using the `oz secret` command."@);
        } else if j == 3 {
            assert(cloud_mode_tips_spec()[j].0 == "Join any Oz cloud agent run in real-time using Agent Session Sharing."@);
        } else if j == 4 {
            assert(cloud_mode_tips_spec()[j].0 == "Set up recurring agents that run on cron schedules for automated maintenance."@);
        } else if j == 5 {
            assert(cloud_mode_tips_spec()[j].0 == "Create agents that automatically fix bugs when issues are filed in Linear."@);
        } else if j == 6 {
            assert(cloud_mode_tips_spec()[j].0 == "Build agents that respond to CI failures and attempt automatic fixes."@);
        } else if j == 7 {
            assert(cloud_mode_tips_spec()[j].0 == "Run agents from GitHub Actions using the `oz-agent-action`."@);
        } else if j == 8 {
            assert(cloud_mode_tips_spec()[j].0 == "Call the Oz REST API to trigger agents from any backend service or internal tool."@);
        } else if j == 9 {
            assert(cloud_mode_tips_spec()[j].0 == "Create reusable environments with Docker images for consistent agent execution."@);
        } else if j == 10 {
            assert(cloud_mode_tips_spec()[j].0 == "Share agent session links with your team for collaborative debugging."@);
        } else if j == 11 {
            assert(cloud_mode_tips_spec()[j].0 == "Use the `--share` flag with the Oz CLI to enable session sharing from anywhere."@);
        } else if j == 12 {
            assert(cloud_mode_tips_spec()[j].0 == "Fork a completed Oz cloud agent session into Warp to continue the work locally."@);
        } else if j == 13 {
            assert(cloud_mode_tips_spec()[j].0 == "Build internal tools that use agents to answer questions from your databases."@);
        } else if j == 14 {
            assert(cloud_mode_tips_spec()[j].0 == "Create a scheduled agent to clean up stale feature flags every week."@);
        } else if j == 15 {
            assert(cloud_mode_tips_spec()[j].0 == "Tag @Oz in Linear issues to automatically investigate and propose fixes."@);
        } else if j == 16 {
            assert(cloud_mode_tips_spec()[j].0 == "Run agents on remote dev boxes or CI runners using the Oz CLI."@);
        } else if j == 17 {
            assert(cloud_mode_tips_spec()[j].0 == "Configure MCP servers to give Oz cloud agents access to GitHub, Linear, and Sentry."@);
        } else if j == 18 {
            assert(cloud_mode_tips_spec()[j].0 == "Use `oz agent run` to kick off tasks without opening the Warp terminal."@);
        } else if j == 19 {
            assert(cloud_mode_tips_spec()[j].0 == "Build agents that automatically triage and label incoming GitHub issues."@);
        } else if j == 20 {
            assert(cloud_mode_tips_spec()[j].0 == "Set up an agent to generate daily summaries of newly opened issues."@);
        } else if j == 21 {
            assert(cloud_mode_tips_spec()[j].0 == "Create an agent that automatically reviews PRs and suggests improvements."@);
        } else if j == 22 {
            assert(cloud_mode_tips_spec()[j].0 == "Use `oz environment create` to define reproducible execution contexts."@);
        } else if j == 23 {
            assert(cloud_mode_tips_spec()[j].0 == "Trigger agents from webhooks to respond to production incidents."@);
        } else if j == 24 {
            assert(cloud_mode_tips_spec()[j].0 == "Build an agent that restarts services or scales deployments when alerts fire."@);
        } else if j == 25 {
            assert(cloud_mode_tips_spec()[j].0 == "Use personal secrets for credentials that should only be used by your agents."@);
        } else if j == 26 {
            assert(cloud_mode_tips_spec()[j].0 == "Use team secrets for shared infrastructure credentials across all agents."@);
        } else if j == 27 {
            assert(cloud_mode_tips_spec()[j].0 == "Create an agent that runs nightly to check for dependency updates."@);
        } else if j == 28 {
            assert(cloud_mode_tips_spec()[j].0 == "Build an agent that automatically formats and lints code on a schedule."@);
        } else if j == 29 {
            assert(cloud_mode_tips_spec()[j].0 == "Use `oz schedule create` to set up cron-triggered agents."@);
        } else if j == 30 {
            assert(cloud_mode_tips_spec()[j].0 == "Pause and resume scheduled agents without deleting them using `oz schedule pause`."@);
        } else if j == 31 {
            assert(cloud_mode_tips_spec()[j].0 == "Use `oz mcp list` to see which MCP servers are available to your agents."@);
        } else if j == 32 {
            assert(cloud_mode_tips_spec()[j].0 == "Build an internal Slack bot that delegates coding tasks to Oz agents."@);
        } else if j == 33 {
            assert(cloud_mode_tips_spec()[j].0 == "Create an agent that responds to @mentions in Slack threads with full context."@);
        } else if j == 34 {
            assert(cloud_mode_tips_spec()[j].0 == "Use the Oz TypeScript SDK to build custom automation pipelines."@);
        } else if j == 35 {
            assert(cloud_mode_tips_spec()[j].0 == "Use the Oz Python SDK to integrate agents into your data pipelines."@);
        } else if j == 36 {
            assert(cloud_mode_tips_spec()[j].0 == "Monitor agent success rates and runtimes using the Oz API."@);
        } else if j == 37 {
            assert(cloud_mode_tips_spec()[j].0 == "Build a dashboard that tracks all agent activity across your team."@);
        }
    }
}

/// Returns a collection of tips for the cloud mode loading screen.
#[verifier::rlimit(50)]
pub fn get_cloud_mode_tips() -> (r: Vec<CloudModeTip>)
    ensures
        r@.len() == cloud_mode_tips_spec().len(),
        forall|i: int| 0 <= i < r@.len() ==> #[trigger] r@[i]@ == cloud_mode_tips_spec()[i],
{
    let mut tips: Vec<CloudModeTip> = Vec::new();
    tips.push(CloudModeTip::new(
        "Install the Oz Slack integration to trigger agents from any channel or DM.",
        Some("https://github.com/nikolaypaskov/heddle#readme"),
    ));
    tips.push(CloudModeTip::new(
        "Build programmatic agents using Oz's TypeScript and Python SDKs.",
        Some("https://github.com/nikolaypaskov/heddle#readme"),
    ));
    tips.push(CloudModeTip::new(
        "Set team or personal secrets for agents using the `oz secret` command.",
        Some("https://github.com/nikolaypaskov/heddle#readme"),
    ));
    tips.push(CloudModeTip::new(
        "Join any Oz cloud agent run in real-time using Agent Session Sharing.",
        Some("https://github.com/nikolaypaskov/heddle#readme"),
    ));
    tips.push(CloudModeTip::new(
        "Set up recurring agents that run on cron schedules for automated maintenance.",
        Some("https://github.com/nikolaypaskov/heddle#readme"),
    ));
    tips.push(CloudModeTip::new(
        "Create agents that automatically fix bugs when issues are filed in Linear.",
        Some("https://github.com/nikolaypaskov/heddle#readme"),
    ));
    tips.push(CloudModeTip::new(
        "Build agents that respond to CI failures and attempt automatic fixes.",
        Some("https://github.com/nikolaypaskov/heddle#readme"),
    ));
    tips.push(CloudModeTip::new(
        "Run agents from GitHub Actions using the `oz-agent-action`.",
        Some("https://github.com/warpdotdev/oz-agent-action"),
    ));
    tips.push(CloudModeTip::new(
        "Call the Oz REST API to trigger agents from any backend service or internal tool.",
        Some("https://github.com/nikolaypaskov/heddle#readme"),
    ));
    tips.push(CloudModeTip::new(
        "Create reusable environments with Docker images for consistent agent execution.",
        Some("https://github.com/nikolaypaskov/heddle#readme"),
    ));
    tips.push(CloudModeTip::new(
        "Share agent session links with your team for collaborative debugging.",
        Some("https://github.com/nikolaypaskov/heddle#readme"),
    ));
    tips.push(CloudModeTip::new(
        "Use the `--share` flag with the Oz CLI to enable session sharing from anywhere.",
        Some("https://github.com/nikolaypaskov/heddle#readme"),
    ));
    tips.push(CloudModeTip::new(
        "Fork a completed Oz cloud agent session into Warp to continue the work locally.",
        Some("https://github.com/nikolaypaskov/heddle#readme"),
    ));
    tips.push(CloudModeTip::new(
        "Build internal tools that use agents to answer questions from your databases.",
        Some("https://github.com/nikolaypaskov/heddle#readme"),
    ));
    tips.push(CloudModeTip::new(
        "Create a scheduled agent to clean up stale feature flags every week.",
        Some("https://github.com/nikolaypaskov/heddle#readme"),
    ));
    tips.push(CloudModeTip::new(
        "Tag @Oz in Linear issues to automatically investigate and propose fixes.",
        Some("https://github.com/nikolaypaskov/heddle#readme"),
    ));
    tips.push(CloudModeTip::new(
        "Run agents on remote dev boxes or CI runners using the Oz CLI.",
        Some("https://github.com/nikolaypaskov/heddle#readme"),
    ));
    tips.push(CloudModeTip::new(
        "Configure MCP servers to give Oz cloud agents access to GitHub, Linear, and Sentry.",
        Some("https://github.com/nikolaypaskov/heddle#readme"),
    ));
    tips.push(CloudModeTip::new(
        "Use `oz agent run` to kick off tasks without opening the Warp terminal.",
        Some("https://github.com/nikolaypaskov/heddle#readme"),
    ));
    tips.push(CloudModeTip::new(
        "Build agents that automatically triage and label incoming GitHub issues.",
        Some("https://github.com/nikolaypaskov/heddle#readme"),
    ));
    tips.push(CloudModeTip::new(
        "Set up an agent to generate daily summaries of newly opened issues.",
        Some("https://github.com/nikolaypaskov/heddle#readme"),
    ));
    tips.push(CloudModeTip::new(
        "Create an agent that automatically reviews PRs and suggests improvements.",
        Some("https://github.com/nikolaypaskov/heddle#readme"),
    ));
    tips.push(CloudModeTip::new(
        "Use `oz environment create` to define reproducible execution contexts.",
        Some("https://github.com/nikolaypaskov/heddle#readme"),
    ));
    tips.push(CloudModeTip::new(
        "Trigger agents from webhooks to respond to production incidents.",
        Some("https://github.com/nikolaypaskov/heddle#readme"),
    ));
    tips.push(CloudModeTip::new(
        "Build an agent that restarts services or scales deployments when alerts fire.",
        Some("https://github.com/nikolaypaskov/heddle#readme"),
    ));
    tips.push(CloudModeTip::new(
        "Use personal secrets for credentials that should only be used by your agents.",
        Some("https://github.com/nikolaypaskov/heddle#readme"),
    ));
    tips.push(CloudModeTip::new(
        "Use team secrets for shared infrastructure credentials across all agents.",
        Some("https://github.com/nikolaypaskov/heddle#readme"),
    ));
    tips.push(CloudModeTip::new(
        "Create an agent that runs nightly to check for dependency updates.",
        Some("https://github.com/nikolaypaskov/heddle#readme"),
    ));
    tips.push(CloudModeTip::new(
        "Build an agent that automatically formats and lints code on a schedule.",
        Some("https://github.com/nikolaypaskov/heddle#readme"),
    ));
    tips.push(CloudModeTip::new(
        "Use `oz schedule create` to set up cron-triggered agents.",
        Some("https://github.com/nikolaypaskov/heddle#readme"),
    ));
    tips.push(CloudModeTip::new(
        "Pause and resume scheduled agents without deleting them using `oz schedule pause`.",
        Some("https://github.com/nikolaypaskov/heddle#readme"),
    ));
    tips.push(CloudModeTip::new(
        "Use `oz mcp list` to see which MCP servers are available to your agents.",
        Some("https://github.com/nikolaypaskov/heddle#readme"),
    ));
    tips.push(CloudModeTip::new(
        "Build an internal Slack bot that delegates coding tasks to Oz agents.",
        Some("https://github.com/nikolaypaskov/heddle#readme"),
    ));
    tips.push(CloudModeTip::new(
        "Create an agent that responds to @mentions in Slack threads with full context.",
        Some("https://github.com/nikolaypaskov/heddle#readme"),
    ));
    tips.push(CloudModeTip::new(
        "Use the Oz TypeScript SDK to build custom automation pipelines.",
        Some("https://github.com/nikolaypaskov/heddle#readme"),
    ));
    tips.push(CloudModeTip::new(
        "Use the Oz Python SDK to integrate agents into your data pipelines.",
        Some("https://github.com/nikolaypaskov/heddle#readme"),
    ));
    tips.push(CloudModeTip::new(
        "Monitor agent success rates and runtimes using the Oz API.",
        Some("https://github.com/nikolaypaskov/heddle#readme"),
    ));
    tips.push(CloudModeTip::new(
        "Build a dashboard that tracks all agent activity across your team.",
        Some("https://github.com/nikolaypaskov/heddle#readme"),
    ));
    assert(tips@.map_values(|t: CloudModeTip| t@) =~= cloud_mode_tips_spec());
    tips
}

} // verus!
