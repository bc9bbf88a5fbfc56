# wren

A job scheduler for HPC clusters on Kubernetes. Two kinds of job are run: MPI
jobs (`MPIJob`) and Wren jobs (`WrenJob`), each by a controller of its own, in
pods or on the nodes' agents. What the scheduler and the controllers decide is
proved with Verus; what reaches the cluster is ordinary Rust around it.

- `src/model` is the data they share: job specs, walltimes, the cluster.
- `src/scheduler` holds queues, dependencies, job arrays, gang placement and
  topology scores.
- `src/controller` is common to both controllers: booking of resources,
  walltime and clean-up rules, pod manifests, what a job's state becomes.
- `src/bubo` and `src/wren` are the controllers of MPI jobs and of Wren jobs.
- `src/cli` is what the command-line tools print and change.
- `app` holds `main`, the Kubernetes client, the web servers and the metric
  collectors.
- `tests` run the library on concrete values.

Public proof functions whose names start with `law_` state what holds of the
library as a whole.
