//! A Linux container runtime: the configuration of a container (namespaces,
//! mounts, root, devices, links, hostname, user, capabilities), the system
//! calls that prepare it, and the command line and OCF front ends that build
//! such a configuration.

mod cbytes;
pub mod flags;
mod plan;
mod config;
mod namespace;
mod root;
mod user;
mod hostname;
mod link;
mod mount;
mod device;
mod capabilities;
mod command;
mod run;
mod cli;
mod exec;
pub mod into_cow;
mod ocf;
mod ocf_config;

pub use cbytes::{
    ascii_bytes,
    is_first_nul,
    nul_free,
    plain_ascii,
    CBytes,
    NulError,
};
pub use plan::{
    and_then,
    apply_outcome,
    exec_steps,
    has_settle,
    lemma_exec_concat,
    lemma_run_concat,
    lemma_settled_concat,
    opt_view,
    plan_view,
    run_plan,
    settled,
    step_effect,
    CallView,
    OnError,
    Outcome,
    Runner,
    Step,
    StepView,
    Syscall,
};
pub use config::{
    configs_flags,
    configs_plan,
    lemma_chain_prepare,
    lemma_configs_flags_push,
    lemma_configs_prepare_push,
    Config,
    ConfigChain,
    Configs,
};
pub use namespace::{
    lemma_clone_flags_distinct,
    lemma_configs_namespace_flags,
    lemma_namespace_clone_flags,
    lemma_namespace_join_result,
    lemma_namespace_steps,
    namespace_plan,
    Namespace,
    NamespaceKind,
};
pub use root::{
    lemma_root_steps,
    root_plan,
    Root,
};
pub use user::{
    lemma_user_steps,
    user_plan,
    User,
};
pub use hostname::{
    hostname_plan,
    lemma_hostname_steps,
    Hostname,
};
pub use link::{
    default_symlinks,
    is_default_symlinks,
    lemma_symlink_steps,
    symlink_is,
    symlink_plan,
    Symlink,
};
pub use mount::{
    default_mounts,
    is_default_mounts,
    lemma_mount_result,
    lemma_mount_steps,
    mount_has,
    mount_is,
    mount_plan,
    opt_ascii,
    Mount,
};
pub use device::{
    default_devices,
    device_is,
    device_plan,
    gnu_makedev,
    is_default_devices,
    lemma_device_steps,
    lemma_makedev_inverse,
    lemma_makedev_small,
    spec_dev_major,
    spec_dev_minor,
    spec_makedev,
    Device,
};
pub use capabilities::{
    cap_drop_plan,
    capabilities_plan,
    dropped_cap,
    has_cap,
    lemma_cap_drop_plan,
    Capabilities,
};
pub use command::{
    bytes_start_with,
    cbytes_views,
    lemma_path_variable,
    path_variable_of,
    starts_with,
    Command,
};
pub use run::{
    child_action,
    lemma_wait_verdict,
    reaper_exit_status,
    run_clone_flags,
    spec_wait_verdict,
    wait_verdict,
    ChildAction,
    WaitEvent,
    WaitVerdict,
};
pub use cli::{
    lemma_bind_dest_under_root,
    lemma_join_rootless_under,
    add_default_path,
    bind_dest,
    bind_readonly,
    bind_texts,
    bind_workdir,
    bind_workdir_spec,
    bytes_eq,
    c_strings_of,
    command_args,
    env_assignment,
    exec_command,
    exec_namespaces,
    first_index_of,
    first_with_nul,
    has_value,
    is_exec_namespaces,
    is_split,
    join_path,
    join_path_bytes,
    join_with,
    lemma_first_index_of,
    lemma_first_with_nul_concat,
    lemma_mount_bind_overlay,
    lemma_mount_bind_plain,
    lemma_mount_bind_texts,
    lemma_strip_slashes_relative,
    mount_bind,
    mount_bind_spec,
    nul_error_on,
    option_value_of,
    overlay_options,
    parse_mount,
    parse_mount_spec,
    prepare_root_arg,
    push_all,
    rootless,
    sets_path,
    split_bytes,
    strip_slashes,
    vec_views,
    MountArg,
};
pub use exec::{
    binds_texts,
    exec_plan,
    exec_texts,
    lemma_binds_texts_concat,
    lemma_exec_config_plan,
    ExecConfig,
};
pub use ocf::{
    failure_message,
    find_runtime_mount,
    fold_mount_options,
    issue_message,
    lemma_failure_messages,
    lemma_find_runtime_mount,
    lemma_fold_mount_flags,
    lemma_mount_flag_names,
    mount_flag,
    mount_options,
    runtime_mount_index,
    spec_mount_flag,
    str_eq,
    string_views,
    Arch,
    ConfigIssue,
    OcfDevice,
    OcfError,
    OcfFailure,
    OcfLinux,
    OcfMountPoint,
    OcfNamespace,
    OcfPlatform,
    OcfProcess,
    OcfRuntime,
    OcfRuntimeMount,
    OcfSpec,
    OcfUser,
    Propagation,
};
pub use ocf_config::{
    lemma_arch_supported,
    lemma_caps_of,
    lemma_device_type_letters,
    lemma_propagation_flags,
    lemma_mount_path_under_root,
    lemma_ocf_config_plan,
    lemma_ocf_mount_flags,
    absolute,
    arch_supported,
    capability_set,
    caps_of,
    command_ok,
    device_failure,
    device_kind_of,
    first_device_failure,
    first_missing_mount,
    has_mount_namespace,
    has_new_uts,
    mounts_ok,
    namespace_paths_ok,
    no_mkdir_option,
    mounts_ok_before,
    options_read,
    mounts_reached,
    capabilities_reached,
    ocf_check,
    ocf_command,
    ocf_config,
    ocf_config_is,
    ocf_device,
    ocf_devices,
    ocf_failure,
    ocf_mount,
    ocf_mount_data,
    ocf_mount_flags,
    ocf_mount_fs,
    ocf_mount_ok,
    ocf_mount_path,
    ocf_mounts,
    ocf_namespaces,
    ocf_precheck,
    ocf_root_flags,
    opt_nul_free,
    opt_utf8,
    propagation_flag,
    runtime_mount_of,
    OcfConfig,
};
pub use into_cow::{cow_bytes, into_cbytes, opt_cow_bytes, opt_into_cbytes, IntoCow};
