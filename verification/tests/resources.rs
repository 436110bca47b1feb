use koharu::paths::Platform;
use koharu::resources::{
    last_opened_at, BuildEvent, BuildStep, PartBuild, PartEvent, PartFault, PartStep,
    ACCELERATED_LIMIT_SECS,
};

#[test]
fn the_requested_device_is_selected_first() {
    assert_eq!(BuildStep::build_resources("CPU"), BuildStep::SelectRequested(true));
    assert_eq!(BuildStep::build_resources("AUTO"), BuildStep::SelectRequested(false));
    assert_eq!(BuildStep::build_resources("cpu"), BuildStep::SelectRequested(false));
    assert_eq!(BuildStep::SelectRequested(true).next(BuildEvent::Success), BuildStep::OnCpu);
    assert_eq!(
        BuildStep::SelectRequested(false).next(BuildEvent::Success),
        BuildStep::Accelerated
    );
    assert_eq!(ACCELERATED_LIMIT_SECS, 45);
}

#[test]
fn a_failed_accelerator_falls_back_to_the_processor() {
    for event in [BuildEvent::Error, BuildEvent::TimedOut] {
        let mut step = BuildStep::Accelerated.next(event);
        assert_eq!(step, BuildStep::SelectCpu);
        step = step.next(BuildEvent::Success);
        assert_eq!(step, BuildStep::OnCpu);
        assert_eq!(step.next(BuildEvent::Success), BuildStep::Ready);
        assert_eq!(step.next(BuildEvent::Error), BuildStep::Failed);
    }
    assert_eq!(BuildStep::Accelerated.next(BuildEvent::Success), BuildStep::Ready);
    assert_eq!(BuildStep::OnCpu.next(BuildEvent::TimedOut), BuildStep::OnCpu);
}

/// The steps of a build in which `failing` fails, if it comes up.
fn steps(mut build: PartBuild, cuda: bool, failing: Option<PartStep>) -> Vec<PartStep> {
    let mut seen = Vec::new();
    loop {
        seen.push(build.step);
        let event = match build.step {
            PartStep::Ready | PartStep::Failed(_) => return seen,
            PartStep::FindCuda => PartEvent::Cuda(cuda),
            step if Some(step) == failing => PartEvent::Error,
            _ => PartEvent::Success,
        };
        build.advance(event);
    }
}

#[test]
fn parts_for_cuda_on_windows() {
    let build = PartBuild::build_resources_inner(false, Platform::Windows, true);
    assert_eq!(
        steps(build, true, None),
        vec![
            PartStep::FindCuda,
            PartStep::EnsureLibraries,
            PartStep::PreloadLibraries,
            PartStep::AddLibraryDir,
            PartStep::RegisterToolkit,
            PartStep::LoadModels,
            PartStep::StartWarmup,
            PartStep::MakeLanguageModel,
            PartStep::MakeFontDir,
            PartStep::MakeRenderer,
            PartStep::OpenProject,
            PartStep::NoteProject,
            PartStep::OpenDevice,
            PartStep::Ready,
        ]
    );
}

#[test]
fn parts_elsewhere_and_without_cuda() {
    let rest = vec![
        PartStep::LoadModels,
        PartStep::StartWarmup,
        PartStep::MakeLanguageModel,
        PartStep::MakeFontDir,
        PartStep::MakeRenderer,
        PartStep::OpenDevice,
        PartStep::Ready,
    ];
    let build = PartBuild::build_resources_inner(true, Platform::Windows, false);
    assert_eq!(steps(build, true, None), rest);
    let build = PartBuild::build_resources_inner(false, Platform::Windows, false);
    let mut expected = vec![PartStep::FindCuda];
    expected.extend(rest.clone());
    assert_eq!(steps(build, false, None), expected);
    let build = PartBuild::build_resources_inner(false, Platform::Other, false);
    let mut expected =
        vec![PartStep::FindCuda, PartStep::EnsureLibraries, PartStep::PreloadLibraries];
    expected.extend(rest);
    assert_eq!(steps(build, true, None), expected);
}

#[test]
fn each_fatal_fault_ends_the_build() {
    let cases = [
        (PartStep::EnsureLibraries, PartFault::EnsureLibraries),
        (PartStep::PreloadLibraries, PartFault::PreloadLibraries),
        (PartStep::AddLibraryDir, PartFault::AddLibraryDir),
        (PartStep::LoadModels, PartFault::LoadModels),
        (PartStep::MakeRenderer, PartFault::MakeRenderer),
        (PartStep::OpenDevice, PartFault::OpenDevice),
    ];
    for (step, fault) in cases {
        let build = PartBuild::build_resources_inner(false, Platform::Windows, true);
        let seen = steps(build, true, Some(step));
        assert_eq!(seen.last(), Some(&PartStep::Failed(fault)));
    }
}

#[test]
fn small_faults_are_survived() {
    for step in [
        PartStep::StartWarmup,
        PartStep::MakeFontDir,
        PartStep::OpenProject,
        PartStep::NoteProject,
    ] {
        let build = PartBuild::build_resources_inner(false, Platform::Windows, true);
        assert_eq!(steps(build, true, Some(step)).last(), Some(&PartStep::Ready));
    }
    let build = PartBuild::build_resources_inner(true, Platform::Other, true);
    let seen = steps(build, true, Some(PartStep::OpenProject));
    assert!(!seen.contains(&PartStep::NoteProject));
}

#[test]
fn a_build_keeps_its_device() {
    for cpu in [false, true] {
        let mut build = PartBuild::build_resources_inner(cpu, Platform::Windows, true);
        while build.step != PartStep::Ready {
            assert_eq!(build.cpu, cpu);
            let event = match build.step {
                PartStep::FindCuda => PartEvent::Cuda(true),
                _ => PartEvent::Success,
            };
            build.advance(event);
        }
        assert_eq!(build.cpu, cpu);
    }
}

#[test]
fn the_processor_needs_no_libraries() {
    let build = PartBuild::build_resources_inner(true, Platform::Windows, true);
    for step in steps(build, true, None) {
        assert!(!matches!(
            step,
            PartStep::FindCuda
                | PartStep::EnsureLibraries
                | PartStep::PreloadLibraries
                | PartStep::AddLibraryDir
                | PartStep::RegisterToolkit
        ));
    }
    for (step, fault) in [
        (PartStep::LoadModels, PartFault::LoadModels),
        (PartStep::MakeRenderer, PartFault::MakeRenderer),
        (PartStep::OpenDevice, PartFault::OpenDevice),
    ] {
        let build = PartBuild::build_resources_inner(true, Platform::Windows, true);
        assert_eq!(steps(build, true, Some(step)).last(), Some(&PartStep::Failed(fault)));
    }
}

#[test]
fn faults_are_put_in_context() {
    assert_eq!(
        PartFault::EnsureLibraries.context(),
        Some("Failed to ensure dynamic libraries")
    );
    assert_eq!(
        PartFault::PreloadLibraries.context(),
        Some("Failed to preload dynamic libraries")
    );
    assert_eq!(PartFault::AddLibraryDir.context(), Some("Failed to add DLL directory"));
    assert_eq!(PartFault::LoadModels.context(), Some("Failed to initialize ML model"));
    assert_eq!(PartFault::MakeRenderer.context(), Some("Failed to initialize renderer"));
    assert_eq!(PartFault::OpenDevice.context(), None);
}

#[test]
fn a_clock_before_the_epoch_counts_as_the_epoch() {
    assert_eq!(last_opened_at(None), 0);
    assert_eq!(last_opened_at(Some(1_700_000_000)), 1_700_000_000);
}
