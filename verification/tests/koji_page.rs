use koji_build::errors::KojiError;
use koji_build::nvr::{Arch, NVR};
use koji_build::page::{parse_koji_page, parse_result_success, KojiPage, TaskInfo};
use koji_build::query::{compile_queries, get_method_name, parse_html};
use koji_build::strutil::state_is_failed;

const SAMPLE_PAGE: &str = r#"
  <table>
    <tr>
      <th>ID</th><td>112975921</td>
    </tr>
    <tr>
      <th>Method</th><td>buildArch</td>
    </tr>
    <tr>
      <th>Parameters</th>
      <td>
        <strong>Arch</strong>: x86_64
<br/>
        <strong>Build tag</strong>: <a href="taginfo?tagID=71278">f40-build</a>
<br/>
        <strong>Keep srpm</strong>: True
<br/>
        <strong>Pkg</strong>: tasks/5819/112975819/bcc-0.29.1-1.fc40.src.rpm
<br/>
          <strong>Options:</strong><br/>
    &nbsp;&nbsp;repo_id&nbsp;=&nbsp;5797055
<br/>


      </td>
    </tr>
    <tr>
      <th>State</th>
      <td class="taskfailed">failed
      </td>
    </tr>
    <tr>
      <th>Created</th><td>Mon, 05 Feb 2024 14:01:44 UTC</td>
    </tr>
    <tr>
      <th>Started</th><td>Mon, 05 Feb 2024 14:02:22 UTC</td>
    <tr>
      <th>Completed</th><td>Mon, 05 Feb 2024 14:03:12 UTC</td>
    </tr>
    <tr>
      <th title="From task's creation">Total time</th>
      <td>0:01:28</td>
    </tr>
    <tr>
      <th title="From task's start">Task time</th>
      <td>0:00:50</td>
    </tr>
    <tr>
      <th>Owner</th>
      <td>
          <a href="userinfo?userID=4916">jmarchan</a>
      </td>
    </tr>
    <tr>
      <th>Channel</th>
      <td>
        <a href="channelinfo?channelID=1">default</a>
      </td>
    </tr>
    <tr>
      <th>Host</th>
      <td>
        <a href="hostinfo?hostID=496">buildhw-x86-07.iad2.fedoraproject.org</a>
      </td>
    </tr>
    <tr>
      <th>Arch</th><td>x86_64</td>
    </tr>
    <tr>
      <th>Buildroot</th>
      <td>
        <a href="buildrootinfo?buildrootID=48775034">/var/lib/mock/f40-build-48775034-5797055</a><br/>
      </td>
    </tr>
    <tr>
      <th>Parent</th>
        <td>
        <a href="taskinfo?taskID=112975817" class="taskfailed">build (rawhide, /rpms/bcc.git:110e48716fb75c07bd75ff97aa464bf90572d387)</a>
      </td>
    </tr>
    <tr>
      <th>Descendants</th>
      <td class="tree">

      </td>
    </tr>
    <tr>
      <th>Waiting?</th><td>no</td>
    </tr>
    <tr>
      <th>Awaited?</th><td>no</td>
    </tr>
    <tr>
      <th>Priority</th><td>19</td>
    </tr>
    <tr>
      <th>Weight</th><td>1.84</td>
    </tr>
    <tr>
      <th>Result</th>
      <td>
         <div id="result">
        <pre>BuildError: error building package (arch x86_64), mock exited with status 30; see root.log for more information</pre>
        </div>
      </td>
    </tr>
    <tr>
      <th>Output</th>
      <td>
        <a href="https://kojipkgs.fedoraproject.org//work/tasks/5921/112975921/build.log">build.log</a>
           (<a href="getfile?taskID=112975921&volume=DEFAULT&name=build.log&offset=-4000">tail</a>)
        <br/>
        <a href="https://kojipkgs.fedoraproject.org//work/tasks/5921/112975921/hw_info.log">hw_info.log</a>
           (<a href="getfile?taskID=112975921&volume=DEFAULT&name=hw_info.log&offset=-4000">tail</a>)
        <br/>
        <a href="https://kojipkgs.fedoraproject.org//work/tasks/5921/112975921/mock_output.log">mock_output.log</a>
           (<a href="getfile?taskID=112975921&volume=DEFAULT&name=mock_output.log&offset=-4000">tail</a>)
        <br/>
        <a href="https://kojipkgs.fedoraproject.org//work/tasks/5921/112975921/root.log">root.log</a>
           (<a href="getfile?taskID=112975921&volume=DEFAULT&name=root.log&offset=-4000">tail</a>)
        <br/>
        <a href="https://kojipkgs.fedoraproject.org//work/tasks/5921/112975921/state.log">state.log</a>
           (<a href="getfile?taskID=112975921&volume=DEFAULT&name=state.log&offset=-4000">tail</a>)
        <br/>
      </td>
    </tr>
  </table>
"#;

fn expected_nvr() -> NVR {
    NVR {
        name: String::from("bcc"),
        version: String::from("0.29.1"),
        release: String::from("1.fc40"),
    }
}

fn expected_logs() -> Vec<String> {
    vec![
        String::from("https://kojipkgs.fedoraproject.org//work/tasks/5921/112975921/build.log"),
        String::from("https://kojipkgs.fedoraproject.org//work/tasks/5921/112975921/hw_info.log"),
        String::from(
            "https://kojipkgs.fedoraproject.org//work/tasks/5921/112975921/mock_output.log",
        ),
        String::from("https://kojipkgs.fedoraproject.org//work/tasks/5921/112975921/root.log"),
        String::from("https://kojipkgs.fedoraproject.org//work/tasks/5921/112975921/state.log"),
    ]
}

#[test]
fn test_parse_koji_page() {
    let result = parse_koji_page(SAMPLE_PAGE);
    match result {
        Ok(KojiPage::Failed(f)) => {
            assert_eq!(f.package, expected_nvr());
            assert_eq!(f.arch, Arch(String::from("x86_64")));
            assert_eq!(f.logs, expected_logs());
        },
        other => panic!("expected a failed build record, got {:?}", other),
    }
}

#[test]
fn unsupported_method_page() {
    let page = SAMPLE_PAGE.replace("buildArch", "someOtherTask");
    let result = parse_koji_page(&page);
    assert_eq!(
        result,
        Err(KojiError::UnsupportedMethod(String::from("someOtherTask")))
    );
}

#[test]
fn missing_arch_entry() {
    let page = SAMPLE_PAGE.replace("<strong>Arch</strong>", "<strong>March</strong>");
    let result = parse_koji_page(&page);
    assert_eq!(result, Err(KojiError::MissingField(String::from("Arch"))));
}

#[test]
fn missing_method_row() {
    let page = SAMPLE_PAGE.replace(">Method<", ">Methods<");
    let result = parse_koji_page(&page);
    assert_eq!(result, Err(KojiError::MissingField(String::from("Method"))));
}

#[test]
fn missing_state_row() {
    let page = SAMPLE_PAGE.replace(">State<", ">States<");
    let result = parse_koji_page(&page);
    assert_eq!(result, Err(KojiError::MissingField(String::from("State"))));
}

#[test]
fn missing_output_row() {
    let page = SAMPLE_PAGE.replace(">Output<", ">Outputs<");
    let result = parse_koji_page(&page);
    assert_eq!(result, Err(KojiError::MissingField(String::from("Output"))));
}

#[test]
fn missing_pkg_entry() {
    let page = SAMPLE_PAGE.replace("<strong>Pkg</strong>", "<strong>Pkgs</strong>");
    let result = parse_koji_page(&page);
    assert_eq!(result, Err(KojiError::MissingField(String::from("Pkg"))));
}

const SMALL_PAGE: &str = "<table>\n<tr><th>Method</th><td>buildArch</td></tr>\n<tr><th>Parameters</th><td><strong>Arch</strong>: noarch\n<br/><strong>Pkg</strong>: work/pkgname-1.0-2.fc40.src.rpm\n<br/></td></tr>\n<tr><th>State</th><td>failed</td></tr>\n<tr><th>Output</th><td>no logs here</td></tr>\n</table>\n";

#[test]
fn empty_output_is_soft_success() {
    let result = parse_koji_page(SMALL_PAGE);
    match result {
        Ok(KojiPage::Failed(f)) => {
            assert_eq!(f.package.name, "pkgname");
            assert_eq!(f.arch, Arch(String::from("noarch")));
            assert_eq!(f.logs, Vec::<String>::new());
        },
        other => panic!("expected a failed record with empty logs, got {:?}", other),
    }
}

#[test]
fn childless_output_cell_is_soft_success() {
    let page = SMALL_PAGE.replace("<td>no logs here</td>", "<td></td>");
    let result = parse_koji_page(&page);
    match result {
        Ok(KojiPage::Failed(f)) => {
            assert_eq!(f.logs, Vec::<String>::new());
        },
        other => panic!("expected a failed record with empty logs, got {:?}", other),
    }
}

#[test]
fn childless_parameters_cell_is_missing_arch() {
    let page = SMALL_PAGE.replace(
        "<td><strong>Arch</strong>: noarch\n<br/><strong>Pkg</strong>: work/pkgname-1.0-2.fc40.src.rpm\n<br/></td>",
        "<td></td>",
    );
    assert_eq!(
        parse_koji_page(&page),
        Err(KojiError::MissingField(String::from("Arch")))
    );
}

#[test]
fn success_state_yields_aggregate() {
    let page = SMALL_PAGE.replace(">failed<", ">closed<");
    let result = parse_koji_page(&page);
    match result {
        Ok(KojiPage::Success(b)) => {
            assert_eq!(b.package.name, "pkgname");
            assert_eq!(b.logs.len(), 1);
            assert_eq!(b.logs[0].0, Arch(String::from("noarch")));
            assert_eq!(b.logs[0].1, Vec::<String>::new());
        },
        other => panic!("expected a success record, got {:?}", other),
    }
}

#[test]
fn unsupported_method_before_parameters() {
    // No Parameters row at all: the method gate must still answer first.
    let page = "<table>\n<tr><th>Method</th><td>build</td></tr>\n<tr><th>State</th><td>failed</td></tr>\n</table>\n";
    assert_eq!(
        parse_koji_page(page),
        Err(KojiError::UnsupportedMethod(String::from("build")))
    );
    let page2 = page.replace(">build<", ">newRepo<");
    assert_eq!(
        parse_koji_page(&page2),
        Err(KojiError::UnsupportedMethod(String::from("newRepo")))
    );
}

#[test]
fn missing_parameters_row() {
    let page = "<table>\n<tr><th>Method</th><td>buildArch</td></tr>\n<tr><th>State</th><td>failed</td></tr>\n</table>\n";
    assert_eq!(
        parse_koji_page(page),
        Err(KojiError::MissingField(String::from("Parameters")))
    );
}

#[test]
fn query_results_are_repeatable() {
    let h = parse_html(String::from(SAMPLE_PAGE)).expect("page parses");
    let qs = compile_queries().expect("queries compile");
    let first = get_method_name(&h, &qs).expect("method found");
    let second = get_method_name(&h, &qs).expect("method found again");
    assert_eq!(first, second);
    assert_eq!(first, "buildArch");
}

#[test]
fn state_normalization_casings() {
    assert!(state_is_failed("failed"));
    assert!(state_is_failed("FAILED"));
    assert!(state_is_failed("FaIlEd"));
    assert!(state_is_failed("  task Failed  "));
    assert!(!state_is_failed("closed"));
    assert!(!state_is_failed("complete"));
    assert!(!state_is_failed("fail ed"));
}

fn child(arch: &str, failed: bool, logs: Vec<&str>) -> TaskInfo {
    TaskInfo {
        package: NVR {
            name: String::from("pkgname"),
            version: String::from("1.0"),
            release: String::from("2.fc40"),
        },
        arch: Arch(String::from(arch)),
        failed,
        logs: logs.into_iter().map(String::from).collect(),
    }
}

#[test]
fn success_aggregation_folds_by_arch() {
    let package = child("x86_64", false, vec![]).package;
    let children = vec![
        child("x86_64", false, vec!["a.log"]),
        child("noarch", false, vec!["b.log"]),
        child("x86_64", false, vec!["c.log"]),
    ];
    let build = parse_result_success(&package, &children).expect("aggregate builds");
    assert_eq!(build.package, package);
    assert_eq!(build.logs.len(), 2);
    assert_eq!(build.logs[0].0, Arch(String::from("x86_64")));
    assert_eq!(build.logs[0].1, vec!["a.log", "c.log"]);
    assert_eq!(build.logs[1].0, Arch(String::from("noarch")));
    assert_eq!(build.logs[1].1, vec!["b.log"]);
}

#[test]
fn failed_child_in_aggregate_is_inconsistent() {
    let package = child("x86_64", false, vec![]).package;
    let children = vec![
        child("x86_64", false, vec!["a.log"]),
        child("noarch", true, vec!["b.log"]),
    ];
    assert_eq!(
        parse_result_success(&package, &children),
        Err(KojiError::InconsistentChildState)
    );
}
